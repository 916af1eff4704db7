use openlibrary::models::books::{BibliographyKey, BookIdentifierKey};
use openlibrary::models::OpenLibraryResource;
use openlibrary::{OpenLibraryError, ParseError};

#[test]
fn test_compact_round_trip_all_acronyms() {
    let inputs = vec![
        "ISBN:1839485743",
        "LCCN:62019420",
        "OCLC:ocn123456789",
        "OLID:OL32770978M",
    ];
    for s in inputs {
        let key = BibliographyKey::parse_compact(s).unwrap();
        assert_eq!(key.to_compact(), s);
    }
}

#[test]
fn test_compact_serialize_then_parse() {
    let keys = vec![
        BibliographyKey::ISBN("1839485743".to_string()),
        BibliographyKey::LCCN("62019420".to_string()),
        BibliographyKey::OCLC("ocn123456789".to_string()),
        BibliographyKey::OLID("OL32770978M".to_string()),
    ];
    for key in keys {
        let parsed = BibliographyKey::parse_compact(&key.to_compact()).unwrap();
        assert_eq!(parsed, key);
    }
}

#[test]
fn test_compact_unknown_acronym() {
    let r = BibliographyKey::parse_compact("BADKEY:123");
    match r {
        Err(ParseError::UnsupportedBibliographyKey { acronym }) => {
            assert_eq!(acronym, "BADKEY");
        }
        other => panic!("expected UnsupportedBibliographyKey, got {:?}", other),
    }
}

#[test]
fn test_compact_without_colon_is_malformed() {
    let r = BibliographyKey::parse_compact("ISBN123");
    match r {
        Err(ParseError::MalformedIdentifier { raw }) => {
            assert_eq!(raw, "ISBN123");
        }
        other => panic!("expected MalformedIdentifier, got {:?}", other),
    }
}

#[test]
fn test_compact_empty_parts_are_malformed() {
    assert!(matches!(
        BibliographyKey::parse_compact("ISBN:"),
        Err(ParseError::MalformedIdentifier { .. })
    ));
    assert!(matches!(
        BibliographyKey::parse_compact(":123"),
        Err(ParseError::MalformedIdentifier { .. })
    ));
    assert!(matches!(
        BibliographyKey::parse_compact("ISBN:12:3"),
        Err(ParseError::MalformedIdentifier { .. })
    ));
}

#[test]
fn test_from_tuple() {
    let key = BibliographyKey::from_tuple(("OCLC".to_string(), "ocn123".to_string())).unwrap();
    assert_eq!(key, BibliographyKey::OCLC("ocn123".to_string()));
    assert!(matches!(
        BibliographyKey::from_tuple(("isbn".to_string(), "1".to_string())),
        Err(OpenLibraryError::ParsingError { .. })
    ));
}

#[test]
fn test_path_round_trip() {
    for p in vec!["/authors/OL23919A", "/books/OL7353617M", "/works/OL92304270W"] {
        let res = OpenLibraryResource::parse_path(p).unwrap();
        assert_eq!(res.to_path(), p);
    }
}

#[test]
fn test_path_variants_and_value() {
    let res = OpenLibraryResource::parse_path("/authors/OL23919A").unwrap();
    assert_eq!(res, OpenLibraryResource::Author("OL23919A".to_string()));
    assert_eq!(res.value(), "OL23919A");

    let res = OpenLibraryResource::parse_path("/books/OL1M").unwrap();
    assert_eq!(res, OpenLibraryResource::Book("OL1M".to_string()));

    let res = OpenLibraryResource::parse_path("/works/OL1W").unwrap();
    assert_eq!(res, OpenLibraryResource::Work("OL1W".to_string()));
}

#[test]
fn test_path_without_leading_slash_and_extra_segments() {
    let res = OpenLibraryResource::parse_path("authors/OL23919A").unwrap();
    assert_eq!(res, OpenLibraryResource::Author("OL23919A".to_string()));

    let res = OpenLibraryResource::parse_path("/authors/OL23919A/works.json").unwrap();
    assert_eq!(res, OpenLibraryResource::Author("OL23919A".to_string()));
}

#[test]
fn test_path_unknown_resource_type() {
    let r = OpenLibraryResource::parse_path("/widgets/123");
    match r {
        Err(ParseError::UnknownResourceType { segment }) => {
            assert_eq!(segment, "widgets");
        }
        other => panic!("expected UnknownResourceType, got {:?}", other),
    }
}

#[test]
fn test_path_too_short_is_malformed() {
    assert!(matches!(
        OpenLibraryResource::parse_path("/authors"),
        Err(ParseError::MalformedIdentifier { .. })
    ));
    assert!(matches!(
        OpenLibraryResource::parse_path("///"),
        Err(ParseError::MalformedIdentifier { .. })
    ));
}

#[test]
fn test_parse_key_round_trip() {
    let tokens = vec![
        "isbn_10",
        "isbn_13",
        "lccn",
        "oclc",
        "goodreads",
        "openlibrary",
        "librarything",
        "project_gutenberg",
        "wikidata",
    ];
    for token in tokens {
        let key = BookIdentifierKey::parse_key(token).unwrap();
        assert_eq!(key.wire_token(), token);
    }
}

#[test]
fn test_parse_key_unknown_token() {
    let r = BookIdentifierKey::parse_key("dewey");
    match r {
        Err(ParseError::UnknownIdentifierKey { token }) => {
            assert_eq!(token, "dewey");
        }
        other => panic!("expected UnknownIdentifierKey, got {:?}", other),
    }
}

#[test]
fn test_acronyms() {
    assert_eq!(
        BookIdentifierKey::InternationalStandard10.acronym(),
        Some("ISBN".to_string())
    );
    assert_eq!(
        BookIdentifierKey::InternationalStandard13.acronym(),
        Some("ISBN".to_string())
    );
    assert_eq!(BookIdentifierKey::LibraryOfCongress.acronym(), Some("LCCN".to_string()));
    assert_eq!(
        BookIdentifierKey::OhioCollegeLibraryCenter.acronym(),
        Some("OCLC".to_string())
    );
    assert_eq!(BookIdentifierKey::OpenLibrary.acronym(), Some("OLID".to_string()));
    assert_eq!(BookIdentifierKey::GoodReads.acronym(), None);
    assert_eq!(BookIdentifierKey::WikiData.acronym(), None);
}

#[test]
fn test_from_isbn_lengths() {
    assert_eq!(
        BookIdentifierKey::from_isbn("1839485743").unwrap(),
        BookIdentifierKey::InternationalStandard10
    );
    assert_eq!(
        BookIdentifierKey::from_isbn("1839485743123").unwrap(),
        BookIdentifierKey::InternationalStandard13
    );
    assert!(matches!(
        BookIdentifierKey::from_isbn("12345"),
        Err(OpenLibraryError::ParsingError { .. })
    ));
}

#[test]
fn test_bibliography_keys_query_joins_with_commas() {
    let keys = vec![
        BibliographyKey::ISBN("1839485743".to_string()),
        BibliographyKey::OLID("OL32770978M".to_string()),
    ];
    assert_eq!(
        openlibrary::models::books::bibliography_keys_query(&keys),
        "ISBN:1839485743,OLID:OL32770978M"
    );
    let empty: Vec<BibliographyKey> = vec![];
    assert_eq!(openlibrary::models::books::bibliography_keys_query(&empty), "");
}
