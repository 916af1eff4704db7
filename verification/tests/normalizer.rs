use openlibrary::json::{scalar_or_list, strings_or_entities, Json};
use openlibrary::ParseError;

fn str_node(s: &str) -> Json {
    Json::Str(s.to_string())
}

#[test]
fn test_string_array_normalizes_to_itself() {
    let j = Json::Arr(vec![str_node("a"), str_node("b")]);
    let out = strings_or_entities("subjects", &j).unwrap();
    assert_eq!(out, vec!["a".to_string(), "b".to_string()]);
}

#[test]
fn test_entity_array_normalizes_to_names() {
    let j = Json::Arr(vec![
        Json::Obj(vec![("name".to_string(), str_node("a"))]),
        Json::Obj(vec![
            ("name".to_string(), str_node("b")),
            ("url".to_string(), str_node("http://x")),
        ]),
    ]);
    let out = strings_or_entities("subjects", &j).unwrap();
    assert_eq!(out, vec!["a".to_string(), "b".to_string()]);
}

#[test]
fn test_empty_array_takes_the_string_shape() {
    let j = Json::Arr(vec![]);
    let out = strings_or_entities("subjects", &j).unwrap();
    assert!(out.is_empty());
}

#[test]
fn test_unexpected_shape_is_refused_not_defaulted() {
    let j = Json::Obj(vec![("unexpected".to_string(), Json::Int(1))]);
    match strings_or_entities("subjects", &j) {
        Err(ParseError::UnrecognizedFieldShape { field, raw_snippet }) => {
            assert_eq!(field, "subjects");
            assert_eq!(raw_snippet, "an object");
        }
        other => panic!("expected UnrecognizedFieldShape, got {:?}", other),
    }

    let j = Json::Arr(vec![Json::Int(1)]);
    assert!(matches!(
        strings_or_entities("subjects", &j),
        Err(ParseError::UnrecognizedFieldShape { .. })
    ));
}

#[test]
fn test_mixed_array_is_refused() {
    let j = Json::Arr(vec![
        str_node("a"),
        Json::Obj(vec![("name".to_string(), str_node("b"))]),
    ]);
    assert!(matches!(
        strings_or_entities("subjects", &j),
        Err(ParseError::UnrecognizedFieldShape { .. })
    ));
}

#[test]
fn test_entity_without_name_is_refused() {
    let j = Json::Arr(vec![Json::Obj(vec![("url".to_string(), str_node("http://x"))])]);
    assert!(matches!(
        strings_or_entities("subjects", &j),
        Err(ParseError::UnrecognizedFieldShape { .. })
    ));
}

#[test]
fn test_scalar_is_wrapped_in_a_list() {
    let j = str_node("solo");
    let out = scalar_or_list("url", &j).unwrap();
    assert_eq!(out, vec!["solo".to_string()]);
}

#[test]
fn test_scalar_list_passes_through() {
    let j = Json::Arr(vec![str_node("one"), str_node("two")]);
    let out = scalar_or_list("url", &j).unwrap();
    assert_eq!(out, vec!["one".to_string(), "two".to_string()]);
}

#[test]
fn test_scalar_or_list_refuses_other_shapes() {
    match scalar_or_list("url", &Json::Int(7)) {
        Err(ParseError::UnrecognizedFieldShape { field, raw_snippet }) => {
            assert_eq!(field, "url");
            assert_eq!(raw_snippet, "a number");
        }
        other => panic!("expected UnrecognizedFieldShape, got {:?}", other),
    }
}
