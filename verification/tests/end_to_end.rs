use openlibrary::format::encode_datetime;
use openlibrary::models::account::resolve_reading_log_text;
use openlibrary::models::books::{resolve_book_text, resolve_book_search_text, BibliographyKey};
use openlibrary::models::works::resolve_work_text;
use openlibrary::models::authors::{resolve_author_search_text, resolve_author_works_text};
use openlibrary::models::OpenLibraryResource;
use openlibrary::OpenLibraryError;

#[test]
fn test_reading_log_logged_date_round_trips_exactly() {
    let body = r#"{
        "page": 1,
        "reading_log_entries": [
            {
                "work": {
                    "title": "The Dark Design",
                    "key": "/works/OL3917114W",
                    "author_keys": ["/authors/OL224938A"],
                    "author_names": ["Philip Jose Farmer"],
                    "first_publish_year": 1977,
                    "lending_edition_s": "OL5945775M",
                    "edition_key": ["OL24994036M", "OL5945775M"],
                    "cover_id": 6394752,
                    "cover_edition_key": "OL24994036M"
                },
                "logged_edition": "/books/OL24994036M",
                "logged_date": "2021/09/06,00:44:47"
            }
        ]
    }"#;
    let entries = resolve_reading_log_text(200, body).unwrap();
    assert_eq!(entries.len(), 1);
    let entry = &entries[0];
    assert_eq!(entry.work.title, "The Dark Design");
    assert_eq!(entry.work.key, OpenLibraryResource::Work("OL3917114W".to_string()));
    assert_eq!(
        entry.work.author_keys,
        vec![OpenLibraryResource::Author("OL224938A".to_string())]
    );
    assert_eq!(entry.work.first_publish_year, Some(1977));
    assert_eq!(
        entry.logged_edition,
        OpenLibraryResource::Book("OL24994036M".to_string())
    );
    assert_eq!(encode_datetime(&entry.logged_date), "2021/09/06,00:44:47");
}

#[test]
fn test_book_publishers_from_isbn_endpoint_shape() {
    let body = r#"{
        "key": "/books/OL7353617M",
        "title": "The Mythical Man-Month",
        "publish_date": "1995",
        "publishers": ["Addison-Wesley"]
    }"#;
    let book = resolve_book_text(200, body).unwrap();
    assert_eq!(book.publishers, vec!["Addison-Wesley".to_string()]);
    assert_eq!(book.title, "The Mythical Man-Month");
    assert_eq!(book.key, OpenLibraryResource::Book("OL7353617M".to_string()));
}

#[test]
fn test_book_publishers_from_search_endpoint_shape() {
    let body = r#"{
        "key": "/books/OL24994036M",
        "title": "The Dark Design",
        "publish_date": "1977",
        "publishers": [{"name": "Anchor Books"}]
    }"#;
    let book = resolve_book_text(200, body).unwrap();
    assert_eq!(book.publishers, vec!["Anchor Books".to_string()]);
}

#[test]
fn test_book_full_payload() {
    let body = r#"{
        "url": "https://openlibrary.org/books/OL7353617M/The_Mythical_Man-Month",
        "key": "/books/OL7353617M",
        "title": "The Mythical Man-Month",
        "subtitle": "Essays on Software Engineering",
        "by_statement": "Frederick P. Brooks",
        "authors": [{"key": "/authors/OL973368A", "name": "Frederick P. Brooks"}],
        "identifiers": {"isbn_10": ["0201835959"], "goodreads": ["13629"]},
        "classifications": {"dewey_decimal_class": ["005.1"], "lc_classifications": ["QA76.6"]},
        "subjects": ["Software engineering"],
        "subject_places": [{"name": "USA"}],
        "publishers": ["Addison-Wesley"],
        "publish_places": ["Reading, Mass."],
        "publish_date": "1995",
        "excerpts": [{"comment": "opening", "text": "No scene..."}],
        "links": [{"url": "https://example.com/", "title": "example"}],
        "covers": [12345],
        "ebooks": [{"preview_url": "https://archive.org/x", "availability": "restricted"}],
        "number_of_pages": 322,
        "weight": "1 pound"
    }"#;
    let book = resolve_book_text(200, body).unwrap();
    assert_eq!(
        book.url,
        vec!["https://openlibrary.org/books/OL7353617M/The_Mythical_Man-Month".to_string()]
    );
    assert_eq!(book.subtitle, Some("Essays on Software Engineering".to_string()));
    assert_eq!(book.authors.len(), 1);
    assert_eq!(book.authors[0].name, Some("Frederick P. Brooks".to_string()));
    assert_eq!(
        book.authors[0].key,
        Some(OpenLibraryResource::Author("OL973368A".to_string()))
    );
    assert_eq!(book.identifiers.len(), 2);
    assert_eq!(
        book.identifiers[0],
        (
            openlibrary::models::books::BookIdentifierKey::GoodReads,
            vec!["13629".to_string()]
        )
    );
    assert_eq!(
        book.identifiers[1],
        (
            openlibrary::models::books::BookIdentifierKey::InternationalStandard10,
            vec!["0201835959".to_string()]
        )
    );
    assert_eq!(book.classifications.dewey_decimal, vec!["005.1".to_string()]);
    assert!(!book.classifications.is_default());
    assert_eq!(book.subjects, vec!["Software engineering".to_string()]);
    assert_eq!(book.subject_places[0].name, "USA");
    assert_eq!(book.cover_images, vec![12345]);
    assert_eq!(book.number_of_pages, Some(322));
    assert_eq!(book.excerpts[0].comment, "opening");
    assert_eq!(book.links[0].title, "example");
    assert_eq!(book.ebooks[0].availability, "restricted");
    assert_eq!(book.weight, Some("1 pound".to_string()));
}

#[test]
fn test_book_url_is_normalized_by_the_url_parser() {
    let body = r#"{
        "url": "https://openlibrary.org",
        "key": "/books/OL1M",
        "title": "t",
        "publish_date": "1990"
    }"#;
    let book = resolve_book_text(200, body).unwrap();
    assert_eq!(book.url, vec!["https://openlibrary.org/".to_string()]);
}

#[test]
fn test_book_invalid_url_is_refused() {
    let body = r#"{
        "url": "not a url",
        "key": "/books/OL1M",
        "title": "t",
        "publish_date": "1990"
    }"#;
    assert!(matches!(
        resolve_book_text(200, body),
        Err(OpenLibraryError::JsonParseError { .. })
    ));
}

#[test]
fn test_non_success_status_is_an_api_error() {
    match resolve_book_text(404, "{}") {
        Err(OpenLibraryError::ApiError { status_code, error }) => {
            assert_eq!(status_code, 404);
            assert!(error.is_none());
        }
        other => panic!("expected ApiError, got {:?}", other),
    }
}

#[test]
fn test_unparseable_body_is_a_json_error() {
    assert!(matches!(
        resolve_book_text(200, "not json"),
        Err(OpenLibraryError::JsonParseError { .. })
    ));
    assert!(matches!(
        resolve_book_text(200, r#"{"key": "/books/OL1M", "title": 7, "publish_date": "x"}"#),
        Err(OpenLibraryError::JsonParseError { .. })
    ));
}

#[test]
fn test_book_search_table() {
    let body = r#"{
        "ISBN:1839485743": {
            "key": "/books/OL1M",
            "title": "one",
            "publish_date": "1990"
        },
        "OLID:OL32770978M": {
            "key": "/books/OL2M",
            "title": "two",
            "publish_date": "1991"
        }
    }"#;
    let table = resolve_book_search_text(200, body).unwrap();
    assert_eq!(table.len(), 2);
    assert_eq!(table[0].0, BibliographyKey::ISBN("1839485743".to_string()));
    assert_eq!(table[0].1.title, "one");
    assert_eq!(table[1].0, BibliographyKey::OLID("OL32770978M".to_string()));
}

#[test]
fn test_work_payload() {
    let body = r#"{
        "title": "To Your Scattered Bodies Go",
        "covers": [6394752],
        "subjects": ["Science fiction"],
        "key": "/works/OL3917114W",
        "authors": [
            {"type": "/type/author_role", "author": {"key": "/authors/OL224938A"}},
            {"type": {"key": "/type/author_role"}, "author": {"key": "/authors/OL224939A"}}
        ],
        "latest_revision": 14,
        "revision": 14
    }"#;
    let work = resolve_work_text(200, body).unwrap();
    assert_eq!(work.title, "To Your Scattered Bodies Go");
    assert_eq!(work.key, OpenLibraryResource::Work("OL3917114W".to_string()));
    assert_eq!(work.authors.len(), 2);
    assert_eq!(
        work.authors[0].identifier.key,
        OpenLibraryResource::Author("OL224938A".to_string())
    );
    assert_eq!(
        work.authors[1].identifier.key,
        OpenLibraryResource::Author("OL224939A".to_string())
    );
    assert_eq!(work.latest_revision, 14);
}

#[test]
fn test_author_search_payload() {
    let body = r#"{
        "numFound": 1,
        "start": 0,
        "numFoundExact": true,
        "docs": [
            {
                "key": "OL224938A",
                "type": "author",
                "name": "Philip Jose Farmer",
                "top_work": "To Your Scattered Bodies Go",
                "work_count": 325,
                "top_subjects": ["Science fiction"],
                "_version_": 1700000000000000000
            }
        ]
    }"#;
    let resp = resolve_author_search_text(200, body).unwrap();
    assert_eq!(resp.num_found, 1);
    assert!(resp.num_found_exact);
    assert_eq!(resp.docs.len(), 1);
    assert_eq!(resp.docs[0].name, "Philip Jose Farmer");
    assert_eq!(resp.docs[0].work_count, 325);
    assert_eq!(resp.docs[0]._version_, 1700000000000000000);
}

#[test]
fn test_author_works_payload() {
    let body = r#"{
        "links": {"self": "/authors/OL224938A/works.json", "next": "/authors/OL224938A/works.json?offset=50"},
        "size": 325,
        "entries": [
            {
                "title": "The Dark Design",
                "key": "/works/OL3917114W",
                "authors": [{"type": "/type/author_role", "author": {"key": "/authors/OL224938A"}}],
                "latest_revision": 3,
                "revision": 3
            }
        ]
    }"#;
    let resp = resolve_author_works_text(200, body).unwrap();
    assert_eq!(resp.size, 325);
    assert_eq!(resp.links.len(), 2);
    assert_eq!(resp.entries.len(), 1);
    assert_eq!(resp.entries[0].title, "The Dark Design");
}
