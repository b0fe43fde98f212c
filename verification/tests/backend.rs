use apifs::backend::{objects_from_body, objects_from_json, request_url, BackendError, JsonBody, JsonItem};
use apifs::{ApiDefinition, ApiObject, BackendType};

fn definition() -> ApiDefinition {
    ApiDefinition {
        api_type: BackendType::REST,
        url: "http://localhost:8000".to_string(),
        endpoints: vec!["/users".to_string()],
    }
}

fn pairs(objects: &[ApiObject]) -> Vec<(String, String)> {
    objects.iter().map(|o| (o.path.clone(), o.contents.clone())).collect()
}

#[test]
fn url_is_base_followed_by_path() {
    assert_eq!(request_url(&definition(), "/users"), "http://localhost:8000/users");
    assert_eq!(request_url(&definition(), ""), "http://localhost:8000");
}

#[test]
fn array_of_strings_gives_one_object_each_in_order() {
    let objects = objects_from_body("/users", br#"["alice", "bob", ""]"#).unwrap().unwrap();
    assert_eq!(
        pairs(&objects),
        vec![
            ("/users".to_string(), "alice".to_string()),
            ("/users".to_string(), "bob".to_string()),
            ("/users".to_string(), "".to_string()),
        ]
    );
}

#[test]
fn empty_array_gives_no_objects() {
    let objects = objects_from_body("/p", b" [ ] ").unwrap().unwrap();
    assert!(objects.is_empty());
}

#[test]
fn escapes_in_strings_are_decoded() {
    let objects = objects_from_body("/p", br#"["a\"b", "\u00e9"]"#).unwrap().unwrap();
    assert_eq!(objects[0].contents, "a\"b");
    assert_eq!(objects[1].contents, "é");
}

#[test]
fn document_that_is_not_an_array_is_refused() {
    assert!(matches!(objects_from_body("/p", br#"{"a": 1}"#), Some(Err(BackendError::NotAnArray))));
    assert!(matches!(objects_from_body("/p", b"\"text\""), Some(Err(BackendError::NotAnArray))));
}

#[test]
fn bytes_that_are_not_json_are_refused_with_serde_json_error() {
    for body in [&b"not json"[..], &b"[\"a\"] x"[..], &b""[..]] {
        let expected = serde_json::from_slice::<serde_json::Value>(body).unwrap_err();
        match objects_from_body("/p", body) {
            Some(Err(BackendError::InvalidJson { error, message })) => {
                assert_eq!(message, expected.to_string());
                assert_eq!(error.to_string(), expected.to_string());
                assert_eq!((error.line(), error.column()), (expected.line(), expected.column()));
                assert_eq!(error.classify(), expected.classify());
            }
            _ => panic!("expected InvalidJson"),
        }
    }
}

#[test]
fn array_with_an_element_that_is_not_a_string_gives_none() {
    assert!(objects_from_body("/p", br#"["a", 1]"#).is_none());
    assert!(objects_from_body("/p", br#"[null]"#).is_none());
    assert!(objects_from_body("/p", br#"[["a"]]"#).is_none());
}

#[test]
fn objects_from_parsed_json() {
    let body = JsonBody::Array(vec![JsonItem::Text("x".to_string()), JsonItem::Text("y".to_string())]);
    let objects = objects_from_json("/q", &body).unwrap();
    assert_eq!(pairs(&objects), vec![("/q".to_string(), "x".to_string()), ("/q".to_string(), "y".to_string())]);
    assert!(matches!(objects_from_json("/q", &JsonBody::NotArray), Err(BackendError::NotAnArray)));
}
