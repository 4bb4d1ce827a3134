use http_server::headers::Headers;

fn pairs(items: &[(&str, &str)]) -> Headers {
    let mut headers = Headers::new();
    for (k, v) in items {
        headers.insert(k.to_string(), v.to_string());
    }
    headers
}

#[test]
fn new_headers_are_empty() {
    let headers = Headers::new();
    assert!(headers.is_empty());
    assert_eq!(headers.len(), 0);
    assert_eq!(headers.get("Host"), None);
    assert!(!headers.contains_key("Host"));
    assert_eq!(headers.position("Host"), 0);
}

#[test]
fn insert_keeps_the_order_of_first_insertion() {
    let headers = pairs(&[("B", "1"), ("A", "2"), ("C", "3"), ("A", "4")]);
    assert_eq!(headers.len(), 3);
    assert_eq!(headers.name(0), "B");
    assert_eq!(headers.name(1), "A");
    assert_eq!(headers.value(1), "4");
    assert_eq!(headers.name(2), "C");
    assert_eq!(headers.position("C"), 2);
    assert_eq!(headers.position("D"), 3);
}

#[test]
fn names_are_case_sensitive() {
    let headers = pairs(&[("Host", "a"), ("host", "b")]);
    assert_eq!(headers.len(), 2);
    assert_eq!(headers.get("Host"), Some("a"));
    assert_eq!(headers.get("host"), Some("b"));
    assert_eq!(headers.get("HOST"), None);
}

#[test]
fn equality_ignores_the_order() {
    let a = pairs(&[("A", "1"), ("B", "2")]);
    let b = pairs(&[("B", "2"), ("A", "1")]);
    assert_eq!(a, b);
    assert!(a.included_in(&b));
}

#[test]
fn equality_sees_values_and_missing_names() {
    let a = pairs(&[("A", "1"), ("B", "2")]);
    assert_ne!(a, pairs(&[("A", "1"), ("B", "3")]));
    assert_ne!(a, pairs(&[("A", "1")]));
    assert_ne!(pairs(&[("A", "1")]), a);
    assert!(pairs(&[("A", "1")]).included_in(&a));
    assert!(!a.included_in(&pairs(&[("A", "1")])));
}

#[test]
fn clone_is_equal_and_independent() {
    let a = pairs(&[("A", "1")]);
    let mut b = a.clone();
    assert_eq!(a, b);
    b.insert("A".to_string(), "2".to_string());
    assert_eq!(a.get("A"), Some("1"));
    assert_eq!(b.get("A"), Some("2"));
}
