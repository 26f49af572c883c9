use rusty_relay::util::{get_query, generate_id, into_hashmap, query_field};

#[test]
fn test_get_query() {
    let qs = get_query(vec![
        ("a".to_string(), "1".to_string()),
        ("b".to_string(), "2".to_string()),
        ("c".to_string(), "3".to_string()),
        ("c".to_string(), "4".to_string()),
    ]);
    assert_eq!(qs, "?a=1&b=2&c=3&c=4");
}

#[test]
fn test_get_query_empty() {
    let qs = get_query(vec![]);
    assert_eq!(qs, "");
}

#[test]
fn test_get_query_single() {
    let qs = get_query(vec![("key".to_string(), "value".to_string())]);
    assert_eq!(qs, "?key=value");
}

#[test]
fn test_query_field_absent_for_empty() {
    assert_eq!(query_field(vec![]), None);
    assert_eq!(
        query_field(vec![("a".to_string(), "1".to_string())]),
        Some("?a=1".to_string())
    );
}

#[test]
fn test_generate_id_length_and_alphabet() {
    for len in [12usize, 20, 24] {
        let id = generate_id(len);
        assert_eq!(id.len(), len);
        assert!(id.chars().all(|c| c.is_ascii_alphanumeric()));
    }
}

#[test]
fn test_generate_id_not_constant() {
    let a = generate_id(20);
    let b = generate_id(20);
    // 62^20 values: two equal draws would mean the mint ignores its source
    assert_ne!(a, b);
}

#[test]
fn test_into_hashmap_keeps_textual_pairs_in_order() {
    let pairs = into_hashmap(vec![
        ("content-type".to_string(), Some("text/plain".to_string())),
        ("x-binary".to_string(), None),
        ("host".to_string(), Some("example.org".to_string())),
    ]);
    assert_eq!(
        pairs,
        vec![
            ("content-type".to_string(), "text/plain".to_string()),
            ("host".to_string(), "example.org".to_string()),
        ]
    );
}

#[test]
fn test_into_hashmap_collapses_repeated_names() {
    let pairs = into_hashmap(vec![
        ("x-tag".to_string(), Some("1".to_string())),
        ("host".to_string(), Some("example.org".to_string())),
        ("x-tag".to_string(), Some("2".to_string())),
    ]);
    assert_eq!(
        pairs,
        vec![
            ("x-tag".to_string(), "2".to_string()),
            ("host".to_string(), "example.org".to_string()),
        ],
        "a repeated name keeps one entry with its last value"
    );
}

#[test]
fn test_into_hashmap_keeps_name_case() {
    let pairs = into_hashmap(vec![
        ("X-Mixed-Case".to_string(), Some("v".to_string())),
    ]);
    assert_eq!(pairs, vec![("X-Mixed-Case".to_string(), "v".to_string())]);
}

#[test]
fn test_into_hashmap_empty() {
    let pairs = into_hashmap(vec![]);
    assert!(pairs.is_empty());
}
