//! Sessions, reading logs, and the success/error envelope their endpoint
//! shares.

use vstd::prelude::*;

use crate::format::{datetime_str, valid_datetime, DateTime};
use crate::json::{
    arr_field, field_of, int_in_range, json_from_str, opt_int, opt_string, req_int, req_string,
    str_field_val, str_of, str_values, Json,
};
use crate::models::{parsed_resource, path_segments_of, OpenLibraryResource};
use crate::{DecodeError, JsonDecodeError, OpenLibraryError, OpenLibraryErrorResponse};

verus! {

/// The body of a login request.
#[derive(Clone, Debug)]
pub struct LoginRequest {
    pub username: String,
    pub password: String,
}

/// An authentication token: the session cookie of a logged-in user, held
/// immutably for the lifetime of a client configuration.
#[derive(Clone, Debug, PartialEq, Eq)]
pub struct Session {
    cookie: String,
    username: String,
}

impl Session {
    /// The cookie this session presents.
    pub closed spec fn spec_cookie(&self) -> Seq<char> {
        self.cookie@
    }

    /// The user this session belongs to.
    pub closed spec fn spec_username(&self) -> Seq<char> {
        self.username@
    }

    /// Builds a session from the cookie of a login response.
    pub fn from(cookie: String, username: String) -> (r: Session)
        ensures
            r.spec_cookie() == cookie@,
            r.spec_username() == username@,
    {
        Session { cookie, username }
    }

    pub fn cookie(&self) -> (r: &String)
        ensures
            r@ == self.spec_cookie(),
    {
        &self.cookie
    }

    pub fn username(&self) -> (r: &String)
        ensures
            r@ == self.spec_username(),
    {
        &self.username
    }
}

/// The decision at the login edge: a success response with its cookie
/// header becomes a session; everything else is the exact error the
/// protocol prescribes.
pub fn login_outcome(status: u16, set_cookie: Option<String>, username: String) -> (r: Result<
    Session,
    OpenLibraryError,
>)
    ensures
        status == 200 && set_cookie is Some ==> (r matches Ok(s) && s.spec_cookie()
            == set_cookie.unwrap()@ && s.spec_username() == username@),
        status == 200 && set_cookie is None ==> (r matches Err(OpenLibraryError::ParsingError {
            reason: _,
        })),
        status != 200 ==> (r matches Err(OpenLibraryError::ApiError { status_code, error })
            && status_code == status && error is None),
{
    if status == 200 {
        match set_cookie {
            Some(cookie) => Ok(Session::from(cookie, username)),
            None => Err(
                OpenLibraryError::ParsingError {
                    reason: String::from_str(
                        "The API response from Open Library did not include a Set-Cookie header",
                    ),
                },
            ),
        }
    } else {
        Err(OpenLibraryError::ApiError { status_code: status, error: None })
    }
}

/// The three reading-log shelves of a user.
#[derive(Clone, Copy, Debug, PartialEq, Eq)]
pub enum ReadingLog {
    AlreadyRead,
    CurrentlyReading,
    WantToRead,
}

/// The trailing path segment that selects a shelf.
pub open spec fn log_url_of(log: ReadingLog) -> Seq<char> {
    match log {
        ReadingLog::AlreadyRead => "already-read.json"@,
        ReadingLog::CurrentlyReading => "currently-reading.json"@,
        ReadingLog::WantToRead => "want-to-read.json"@,
    }
}

/// The request path of a user's shelf.
pub open spec fn reading_log_path_of(username: Seq<char>, log: ReadingLog) -> Seq<char> {
    "/people/"@ + username + "/books/"@ + log_url_of(log)
}

impl ReadingLog {
    /// The trailing path segment that selects this shelf.
    pub fn url(&self) -> (r: &'static str)
        ensures
            r@ == log_url_of(*self),
    {
        match self {
            ReadingLog::AlreadyRead => "already-read.json",
            ReadingLog::CurrentlyReading => "currently-reading.json",
            ReadingLog::WantToRead => "want-to-read.json",
        }
    }
}

/// The request path of a user's shelf:
/// `/people/<username>/books/<shelf>.json`.
pub fn reading_log_path(username: &str, log: &ReadingLog) -> (r: String)
    ensures
        r@ == reading_log_path_of(username@, *log),
{
    let mut out = String::from_str("/people/");
    out.append(username);
    out.append("/books/");
    out.append(log.url());
    proof {
        reveal_strlit("/people/");
        reveal_strlit("/books/");
        assert(out@ =~= reading_log_path_of(username@, *log));
    }
    out
}

/// One work on a reading-log shelf.
#[derive(Clone, Debug)]
pub struct ReadingLogWork {
    pub title: String,
    pub key: OpenLibraryResource,
    pub author_keys: Vec<OpenLibraryResource>,
    pub author_names: Vec<String>,
    pub first_publish_year: Option<i32>,
    pub lending_edition_s: Option<String>,
    pub edition_key: Vec<String>,
    pub cover_id: Option<i32>,
    pub cover_edition_key: Option<String>,
}

/// One entry of a reading-log shelf.
#[derive(Clone, Debug)]
pub struct ReadingLogEntry {
    pub work: ReadingLogWork,
    pub logged_edition: OpenLibraryResource,
    pub logged_date: DateTime,
}

/// The success payload of a reading-log endpoint.
#[derive(Debug)]
pub struct ReadingLogResponse {
    pub page: i16,
    pub reading_log_entries: Vec<ReadingLogEntry>,
}

/// The two envelopes a reading-log endpoint serves under one shape.
#[derive(Debug)]
pub enum ReadingLogResponseWrapper {
    Success(ReadingLogResponse),
    Error(OpenLibraryErrorResponse),
}

/// A field holding the wire form of a valid timestamp.
pub open spec fn datetime_field_ok(j: Json, key: Seq<char>) -> bool {
    match field_of(j, key) {
        Some(v) => v is Str && exists|dt: DateTime| valid_datetime(dt) && str_of(v)
            == datetime_str(dt),
        None => false,
    }
}

/// Shape of a reading-log work record.
pub open spec fn reading_log_work_ok(j: Json) -> bool {
    &&& crate::json::req_str_ok(j, "title"@)
    &&& crate::models::resource_field_ok(j, "key"@)
    &&& crate::models::resource_array_ok(j, "author_keys"@)
    &&& crate::json::req_str_array_ok(j, "author_names"@)
    &&& crate::json::opt_int_ok(j, "first_publish_year"@, i32::MIN as int, i32::MAX as int)
    &&& crate::json::opt_str_ok(j, "lending_edition_s"@)
    &&& crate::json::req_str_array_ok(j, "edition_key"@)
    &&& crate::json::opt_int_ok(j, "cover_id"@, i32::MIN as int, i32::MAX as int)
    &&& crate::json::opt_str_ok(j, "cover_edition_key"@)
}

/// How a decoded work relates to its record.
pub open spec fn reading_log_work_matches(w: ReadingLogWork, j: Json) -> bool {
    &&& w.title@ == str_field_val(j, "title"@)
    &&& parsed_resource(w.key, path_segments_of(str_field_val(j, "key"@)))
    &&& w.author_keys@.len() == arr_field(j, "author_keys"@).len()
    &&& forall|i: int|
        0 <= i < w.author_keys@.len() ==> parsed_resource(
            #[trigger] w.author_keys@[i],
            path_segments_of(str_of(arr_field(j, "author_keys"@)[i])),
        )
    &&& w.author_names@.map_values(|s: String| s@) == str_values(arr_field(j, "author_names"@))
    &&& match field_of(j, "first_publish_year"@) {
        Some(Json::Int(v)) => w.first_publish_year == Some(v as i32),
        _ => w.first_publish_year is None,
    }
    &&& match field_of(j, "lending_edition_s"@) {
        Some(Json::Str(s)) => (w.lending_edition_s matches Some(t) && t@ == s@),
        _ => w.lending_edition_s is None,
    }
    &&& w.edition_key@.map_values(|s: String| s@) == str_values(arr_field(j, "edition_key"@))
    &&& match field_of(j, "cover_id"@) {
        Some(Json::Int(v)) => w.cover_id == Some(v as i32),
        _ => w.cover_id is None,
    }
    &&& match field_of(j, "cover_edition_key"@) {
        Some(Json::Str(s)) => (w.cover_edition_key matches Some(t) && t@ == s@),
        _ => w.cover_edition_key is None,
    }
}

/// Shape of a reading-log entry record.
pub open spec fn reading_log_entry_ok(j: Json) -> bool {
    &&& match field_of(j, "work"@) {
        Some(w) => reading_log_work_ok(w),
        None => false,
    }
    &&& crate::models::resource_field_ok(j, "logged_edition"@)
    &&& datetime_field_ok(j, "logged_date"@)
}

/// How a decoded entry relates to its record.
pub open spec fn reading_log_entry_matches(e: ReadingLogEntry, j: Json) -> bool {
    &&& match field_of(j, "work"@) {
        Some(w) => reading_log_work_matches(e.work, w),
        None => false,
    }
    &&& parsed_resource(e.logged_edition, path_segments_of(str_field_val(j, "logged_edition"@)))
    &&& valid_datetime(e.logged_date)
    &&& str_field_val(j, "logged_date"@) == datetime_str(e.logged_date)
}

/// Shape of the success payload.
pub open spec fn reading_log_response_ok(j: Json) -> bool {
    &&& int_in_range(j, "page"@, i16::MIN as int, i16::MAX as int) is Some
    &&& match field_of(j, "reading_log_entries"@) {
        Some(Json::Arr(v)) => forall|i: int|
            0 <= i < v@.len() ==> reading_log_entry_ok(#[trigger] v@[i]),
        _ => false,
    }
}

/// How a decoded success payload relates to its document.
pub open spec fn reading_log_response_matches(resp: ReadingLogResponse, j: Json) -> bool {
    &&& int_in_range(j, "page"@, i16::MIN as int, i16::MAX as int) == Some(resp.page as int)
    &&& resp.reading_log_entries@.len() == arr_field(j, "reading_log_entries"@).len()
    &&& forall|i: int|
        0 <= i < resp.reading_log_entries@.len() ==> reading_log_entry_matches(
            #[trigger] resp.reading_log_entries@[i],
            arr_field(j, "reading_log_entries"@)[i],
        )
}

/// Decodes one work record of a reading-log entry.
pub fn decode_reading_log_work(j: &Json) -> (r: Result<ReadingLogWork, DecodeError>)
    ensures
        match r {
            Ok(w) => reading_log_work_ok(*j) && reading_log_work_matches(w, *j),
            Err(_) => !reading_log_work_ok(*j),
        },
{
    let title = match req_string(j, "title") {
        Ok(s) => s,
        Err(e) => {
            return Err(DecodeError::Json(e));
        },
    };
    let key = match crate::models::resource_field(j, "key") {
        Ok(k) => k,
        Err(e) => {
            return Err(e);
        },
    };
    let author_keys = match crate::models::resource_array(j, "author_keys") {
        Ok(v) => v,
        Err(e) => {
            return Err(e);
        },
    };
    let author_names = match crate::json::req_str_array(j, "author_names") {
        Ok(v) => v,
        Err(e) => {
            return Err(DecodeError::Json(e));
        },
    };
    let first_publish_year = match opt_int(j, "first_publish_year", i32::MIN as i64, i32::MAX
        as i64) {
        Ok(Some(v)) => Some(v as i32),
        Ok(None) => None,
        Err(e) => {
            return Err(DecodeError::Json(e));
        },
    };
    let lending_edition_s = match opt_string(j, "lending_edition_s") {
        Ok(v) => v,
        Err(e) => {
            return Err(DecodeError::Json(e));
        },
    };
    let edition_key = match crate::json::req_str_array(j, "edition_key") {
        Ok(v) => v,
        Err(e) => {
            return Err(DecodeError::Json(e));
        },
    };
    let cover_id = match opt_int(j, "cover_id", i32::MIN as i64, i32::MAX as i64) {
        Ok(Some(v)) => Some(v as i32),
        Ok(None) => None,
        Err(e) => {
            return Err(DecodeError::Json(e));
        },
    };
    let cover_edition_key = match opt_string(j, "cover_edition_key") {
        Ok(v) => v,
        Err(e) => {
            return Err(DecodeError::Json(e));
        },
    };
    Ok(
        ReadingLogWork {
            title,
            key,
            author_keys,
            author_names,
            first_publish_year,
            lending_edition_s,
            edition_key,
            cover_id,
            cover_edition_key,
        },
    )
}

/// Decodes one reading-log entry.
pub fn decode_reading_log_entry(j: &Json) -> (r: Result<ReadingLogEntry, DecodeError>)
    ensures
        match r {
            Ok(e) => reading_log_entry_ok(*j) && reading_log_entry_matches(e, *j),
            Err(_) => !reading_log_entry_ok(*j),
        },
{
    let work = match j.get("work") {
        Some(w) => match decode_reading_log_work(w) {
            Ok(w) => w,
            Err(e) => {
                return Err(e);
            },
        },
        None => {
            return Err(
                DecodeError::Json(JsonDecodeError { field: String::from_str("work") }),
            );
        },
    };
    let logged_edition = match crate::models::resource_field(j, "logged_edition") {
        Ok(res) => res,
        Err(e) => {
            return Err(e);
        },
    };
    let date_str = match req_string(j, "logged_date") {
        Ok(s) => s,
        Err(e) => {
            return Err(DecodeError::Json(e));
        },
    };
    let logged_date = match crate::format::decode_datetime(date_str.as_str()) {
        Some(dt) => dt,
        None => {
            return Err(
                DecodeError::Json(JsonDecodeError { field: String::from_str("logged_date") }),
            );
        },
    };
    Ok(ReadingLogEntry { work, logged_edition, logged_date })
}

/// Decodes the success payload of a reading-log endpoint.
#[verifier::loop_isolation(false)]
pub fn decode_reading_log_response(j: &Json) -> (r: Result<ReadingLogResponse, DecodeError>)
    ensures
        match r {
            Ok(resp) => reading_log_response_ok(*j) && reading_log_response_matches(resp, *j),
            Err(_) => !reading_log_response_ok(*j),
        },
{
    let page_wide = match req_int(j, "page", i16::MIN as i64, i16::MAX as i64) {
        Ok(v) => v,
        Err(e) => {
            return Err(DecodeError::Json(e));
        },
    };
    let page = page_wide as i16;
    let entries = match j.get("reading_log_entries") {
        Some(Json::Arr(v)) => v,
        _ => {
            return Err(
                DecodeError::Json(
                    JsonDecodeError { field: String::from_str("reading_log_entries") },
                ),
            );
        },
    };
    let mut out: Vec<ReadingLogEntry> = Vec::new();
    let mut i: usize = 0;
    while i < entries.len()
        invariant
            i <= entries.len(),
            out@.len() == i,
            forall|k: int| 0 <= k < i ==> reading_log_entry_ok(#[trigger] entries@[k]),
            forall|k: int|
                0 <= k < i ==> reading_log_entry_matches(#[trigger] out@[k], entries@[k]),
        decreases entries.len() - i,
    {
        match decode_reading_log_entry(&entries[i]) {
            Ok(e) => {
                out.push(e);
            },
            Err(e) => {
                proof {
                    assert(!reading_log_entry_ok(entries@[i as int]));
                }
                return Err(e);
            },
        }
        i += 1;
    }
    Ok(ReadingLogResponse { page, reading_log_entries: out })
}

/// The envelope discriminator: a document carrying a top-level `error`
/// field is the error envelope, any other document is read against the
/// success schema. The check runs before the success schema is attempted,
/// so a server error message is never misreported as a missing field.
pub fn decode_reading_log_wrapper(j: &Json) -> (r: Result<ReadingLogResponseWrapper, DecodeError>)
    ensures
        match field_of(*j, "error"@) {
            Some(Json::Str(msg)) => (r matches Ok(ReadingLogResponseWrapper::Error(e)) && e.error@
                == msg@),
            Some(_) => r matches Err(DecodeError::Json(_)),
            None => match r {
                Ok(ReadingLogResponseWrapper::Success(resp)) => reading_log_response_ok(*j)
                    && reading_log_response_matches(resp, *j),
                Ok(ReadingLogResponseWrapper::Error(_)) => false,
                Err(_) => !reading_log_response_ok(*j),
            },
        },
{
    match j.get("error") {
        Some(Json::Str(msg)) => Ok(
            ReadingLogResponseWrapper::Error(OpenLibraryErrorResponse { error: msg.clone() }),
        ),
        Some(_) => Err(DecodeError::Json(JsonDecodeError { field: String::from_str("error") })),
        None => match decode_reading_log_response(j) {
            Ok(resp) => Ok(ReadingLogResponseWrapper::Success(resp)),
            Err(e) => Err(e),
        },
    }
}

/// Resolves a reading-log response: the error envelope becomes the exact
/// API error carrying the server's message and the response status, the
/// success envelope yields its entries, and anything else is a decoding
/// failure.
pub fn resolve_reading_log(status: u16, j: &Json) -> (r: Result<
    Vec<ReadingLogEntry>,
    OpenLibraryError,
>)
    ensures
        match field_of(*j, "error"@) {
            Some(Json::Str(msg)) => (r matches Err(OpenLibraryError::ApiError {
                status_code,
                error,
            }) && status_code == status && (error matches Some(e) && e.error@ == msg@)),
            Some(_) => r matches Err(OpenLibraryError::JsonParseError { reason: _ }),
            None => match r {
                Ok(entries) => reading_log_response_ok(*j) && entries@.len() == arr_field(
                    *j,
                    "reading_log_entries"@,
                ).len() && forall|i: int|
                    0 <= i < entries@.len() ==> reading_log_entry_matches(
                        #[trigger] entries@[i],
                        arr_field(*j, "reading_log_entries"@)[i],
                    ),
                Err(_) => !reading_log_response_ok(*j),
            },
        },
{
    match decode_reading_log_wrapper(j) {
        Ok(ReadingLogResponseWrapper::Success(resp)) => Ok(resp.reading_log_entries),
        Ok(ReadingLogResponseWrapper::Error(e)) => Err(
            OpenLibraryError::ApiError { status_code: status, error: Some(e) },
        ),
        Err(_) => Err(
            OpenLibraryError::JsonParseError {
                reason: String::from_str(
                    "The reading-log payload did not match either envelope schema",
                ),
            },
        ),
    }
}

/// Parses response text and resolves the reading-log envelope: text that
/// parses to a document is resolved exactly as `resolve_reading_log` says;
/// text that is not JSON, or that holds a number this crate's tree cannot
/// carry, is a `JsonParseError` with the parser's message.
pub fn resolve_reading_log_text(status: u16, body: &str) -> (r: Result<
    Vec<ReadingLogEntry>,
    OpenLibraryError,
>)
    ensures
        match crate::json::parsed_json(body@) {
            Some(j) => match field_of(j, "error"@) {
                Some(Json::Str(msg)) => (r matches Err(OpenLibraryError::ApiError {
                    status_code,
                    error,
                }) && status_code == status && (error matches Some(e) && e.error@ == msg@)),
                Some(_) => r matches Err(OpenLibraryError::JsonParseError { reason: _ }),
                None => match r {
                    Ok(entries) => reading_log_response_ok(j) && entries@.len() == arr_field(
                        j,
                        "reading_log_entries"@,
                    ).len() && forall|i: int|
                        0 <= i < entries@.len() ==> reading_log_entry_matches(
                            #[trigger] entries@[i],
                            arr_field(j, "reading_log_entries"@)[i],
                        ),
                    Err(_) => !reading_log_response_ok(j),
                },
            },
            None => r matches Err(OpenLibraryError::JsonParseError { reason: _ }),
        },
{
    match json_from_str(body) {
        Ok(j) => resolve_reading_log(status, &j),
        Err(reason) => Err(OpenLibraryError::JsonParseError { reason }),
    }
}

} // verus!
