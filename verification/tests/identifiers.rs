use std::str::FromStr;

use openlibrary::models::authors::AuthorWorksRequest;
use openlibrary::models::books::BibliographyKey;
use openlibrary::models::identifiers::OpenLibraryIdentifer;

#[test]
pub fn test_author_works_from_identifier() {
    let expected_identifier = OpenLibraryIdentifer::from_str("OL4452558A").unwrap();
    let expected = AuthorWorksRequest {
        identifier: expected_identifier.clone(),
        limit: None,
        offset: None,
    };
    let actual = AuthorWorksRequest::try_from(expected_identifier).unwrap();

    assert_eq!(actual, expected);
}

#[test]
pub fn test_author_works_from_url() {
    let result =
        url::Url::parse("https://www.openlibrary.org/authors/OL4452558A/works.json?limit=75")
            .unwrap();
    let request_builder = AuthorWorksRequest::from_url(&result).unwrap();

    assert_eq!(
        request_builder,
        AuthorWorksRequest {
            identifier: OpenLibraryIdentifer::from_str("OL4452558A").unwrap(),
            limit: Some(75),
            offset: None
        }
    );
}

#[test]
fn test_bibliography_key_to_string() {
    let cases = vec![
        (BibliographyKey::ISBN("1839485743".to_string()), "ISBN:1839485743"),
        (BibliographyKey::ISBN("1839485743123".to_string()), "ISBN:1839485743123"),
        (BibliographyKey::LCCN("62019420".to_string()), "LCCN:62019420"),
        (BibliographyKey::OCLC("ocn123456789".to_string()), "OCLC:ocn123456789"),
        (BibliographyKey::OLID("OL32770978M".to_string()), "OLID:OL32770978M"),
    ];
    for (key, expected) in cases {
        assert_eq!(key.to_compact(), expected.to_string());
    }
}

#[test]
fn test_bibliography_key_serde() {
    let cases = vec![
        "ISBN:1839485743",
        "ISBN:1839485743123",
        "LCCN:62019420",
        "OCLC:ocn123456789",
        "OLID:OL32770978M",
    ];
    for expected in cases {
        let key = BibliographyKey::parse_compact(expected).unwrap();
        let actual = key.to_compact();
        assert_eq!(expected, actual);
    }
}

#[test]
fn test_works_request_duplicate_query_keys_last_wins() {
    let segments = vec!["authors".to_string(), "OL1A".to_string(), "works.json".to_string()];
    let query = vec![
        ("limit".to_string(), "10".to_string()),
        ("offset".to_string(), "3".to_string()),
        ("limit".to_string(), "75".to_string()),
    ];
    let req = AuthorWorksRequest::from_url_parts(&segments, &query).unwrap();
    assert_eq!(req.limit, Some(75));
    assert_eq!(req.offset, Some(3));
    assert_eq!(req.identifier, OpenLibraryIdentifer::from_str("OL1A").unwrap());
}

#[test]
fn test_works_request_bad_limit_is_refused() {
    let segments = vec!["authors".to_string(), "OL1A".to_string()];
    let query = vec![("limit".to_string(), "many".to_string())];
    let r = AuthorWorksRequest::from_url_parts(&segments, &query);
    assert!(matches!(
        r,
        Err(openlibrary::OpenLibraryError::ParsingError { .. })
    ));

    let too_big = vec![("limit".to_string(), "4294967296".to_string())];
    let r = AuthorWorksRequest::from_url_parts(&segments, &too_big);
    assert!(matches!(
        r,
        Err(openlibrary::OpenLibraryError::ParsingError { .. })
    ));

    let max = vec![("limit".to_string(), "4294967295".to_string())];
    let r = AuthorWorksRequest::from_url_parts(&segments, &max).unwrap();
    assert_eq!(r.limit, Some(u32::MAX));
}

#[test]
fn test_works_request_without_authors_segment() {
    let segments = vec!["works".to_string(), "OL1W".to_string()];
    let query = vec![];
    let r = AuthorWorksRequest::from_url_parts(&segments, &query);
    assert!(matches!(
        r,
        Err(openlibrary::OpenLibraryError::ParsingError { .. })
    ));
}

#[test]
fn test_author_works_path_applies_defaults() {
    let req = AuthorWorksRequest {
        identifier: OpenLibraryIdentifer::from_str("OL4452558A").unwrap(),
        limit: None,
        offset: None,
    };
    assert_eq!(
        openlibrary::models::authors::author_works_path(&req),
        "/authors/OL4452558A/works.json?limit=50&offset=0"
    );
    let req = AuthorWorksRequest {
        identifier: OpenLibraryIdentifer::from_str("OL4452558A").unwrap(),
        limit: Some(75),
        offset: Some(10),
    };
    assert_eq!(
        openlibrary::models::authors::author_works_path(&req),
        "/authors/OL4452558A/works.json?limit=75&offset=10"
    );
}
