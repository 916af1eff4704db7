use openlibrary::json::Json;
use openlibrary::models::account::{
    decode_reading_log_wrapper, login_outcome, reading_log_path, resolve_reading_log,
    ReadingLog, ReadingLogResponseWrapper, Session,
};
use openlibrary::OpenLibraryError;

#[test]
fn test_envelope_success_branch_with_empty_list() {
    let j = Json::Obj(vec![
        ("page".to_string(), Json::Int(1)),
        ("reading_log_entries".to_string(), Json::Arr(vec![])),
    ]);
    match decode_reading_log_wrapper(&j) {
        Ok(ReadingLogResponseWrapper::Success(resp)) => {
            assert_eq!(resp.page, 1);
            assert!(resp.reading_log_entries.is_empty());
        }
        other => panic!("expected the success branch, got {:?}", other),
    }
}

#[test]
fn test_envelope_error_branch_carries_exact_message() {
    let msg = "Shelf want-to-read not found or not accessible";
    let j = Json::Obj(vec![("error".to_string(), Json::Str(msg.to_string()))]);
    match decode_reading_log_wrapper(&j) {
        Ok(ReadingLogResponseWrapper::Error(e)) => {
            assert_eq!(e.error, msg);
        }
        other => panic!("expected the error branch, got {:?}", other),
    }
}

#[test]
fn test_envelope_error_key_wins_over_success_fields() {
    let j = Json::Obj(vec![
        ("page".to_string(), Json::Int(1)),
        ("reading_log_entries".to_string(), Json::Arr(vec![])),
        ("error".to_string(), Json::Str("broken shelf".to_string())),
    ]);
    match decode_reading_log_wrapper(&j) {
        Ok(ReadingLogResponseWrapper::Error(e)) => {
            assert_eq!(e.error, "broken shelf");
        }
        other => panic!("expected the error branch, got {:?}", other),
    }
}

#[test]
fn test_envelope_malformed_success_payload_is_a_decode_error() {
    let j = Json::Obj(vec![("page".to_string(), Json::Str("one".to_string()))]);
    assert!(decode_reading_log_wrapper(&j).is_err());
}

#[test]
fn test_resolve_reading_log_maps_error_branch_to_api_error() {
    let msg = "Shelf want-to-read not found or not accessible";
    let j = Json::Obj(vec![("error".to_string(), Json::Str(msg.to_string()))]);
    match resolve_reading_log(403, &j) {
        Err(OpenLibraryError::ApiError { status_code, error }) => {
            assert_eq!(status_code, 403);
            assert_eq!(error.unwrap().error, msg);
        }
        other => panic!("expected ApiError, got {:?}", other),
    }
}

#[test]
fn test_login_outcome_success_builds_session() {
    let session = login_outcome(200, Some("mock_session_cookie".to_string()), "mock_user".to_string())
        .unwrap();
    assert_eq!(session.cookie().as_str(), "mock_session_cookie");
    assert_eq!(session.username().as_str(), "mock_user");
    assert_eq!(
        session,
        Session::from("mock_session_cookie".to_string(), "mock_user".to_string())
    );
}

#[test]
fn test_login_outcome_missing_cookie() {
    assert!(matches!(
        login_outcome(200, None, "mock_user".to_string()),
        Err(OpenLibraryError::ParsingError { .. })
    ));
}

#[test]
fn test_login_outcome_failure_status() {
    match login_outcome(400, Some("mock_session_cookie".to_string()), "mock_user".to_string()) {
        Err(OpenLibraryError::ApiError { status_code, error }) => {
            assert_eq!(status_code, 400);
            assert!(error.is_none());
        }
        other => panic!("expected ApiError, got {:?}", other),
    }
}

#[test]
fn test_reading_log_paths() {
    assert_eq!(ReadingLog::AlreadyRead.url(), "already-read.json");
    assert_eq!(ReadingLog::CurrentlyReading.url(), "currently-reading.json");
    assert_eq!(ReadingLog::WantToRead.url(), "want-to-read.json");
    assert_eq!(
        reading_log_path("mock_user", &ReadingLog::WantToRead),
        "/people/mock_user/books/want-to-read.json"
    );
}
