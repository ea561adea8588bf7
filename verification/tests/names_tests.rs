use ndc_mcp_rs::names::{compose, split, MalformedName};

#[test]
fn test_compose_builds_qualified_name() {
    assert_eq!(compose("db1", "get_item"), "db1__get_item");
    assert_eq!(compose("a", "b"), "a__b");
}

#[test]
fn test_split_recovers_compose_parts() {
    let name = compose("db1", "get_item");
    let (backend, local) = split(&name).unwrap();
    assert_eq!(backend, "db1");
    assert_eq!(local, "get_item");

    let name = compose("backend", "tool_with_single_underscores");
    let (backend, local) = split(&name).unwrap();
    assert_eq!(backend, "backend");
    assert_eq!(local, "tool_with_single_underscores");
}

#[test]
fn test_split_rejects_missing_separator() {
    assert_eq!(split("plainname"), Err(MalformedName));
    assert_eq!(split("single_underscore"), Err(MalformedName));
    assert_eq!(split(""), Err(MalformedName));
}

#[test]
fn test_split_rejects_second_separator() {
    assert_eq!(split("a__b__c"), Err(MalformedName));
    assert_eq!(split("x__y__z__w"), Err(MalformedName));
}

#[test]
fn test_split_rejects_empty_parts() {
    assert_eq!(split("__local"), Err(MalformedName));
    assert_eq!(split("backend__"), Err(MalformedName));
    assert_eq!(split("__"), Err(MalformedName));
}

#[test]
fn test_split_cuts_at_leftmost_separator() {
    // Three underscores in a row: the separator is found at the leftmost
    // position, and the remaining underscore stays on the local part.
    assert_eq!(split("a___x"), Ok(("a".to_string(), "_x".to_string())));
    // Four in a row leave a second separator in the local part: rejected.
    assert_eq!(split("a____x"), Err(MalformedName));
}
