use rich_rust::logging::strip_quotes;

#[test]
fn test_strip_quotes() {
    assert_eq!(strip_quotes("\"hello\""), "hello");
    assert_eq!(strip_quotes("plain"), "plain");
}

#[test]
fn strip_quotes_edge_cases() {
    assert_eq!(strip_quotes("\""), "\"");
    assert_eq!(strip_quotes("\"\""), "");
    assert_eq!(strip_quotes("\"open"), "\"open");
}
