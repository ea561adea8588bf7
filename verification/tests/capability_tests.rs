use ndc_mcp_rs::capability::{
    index_by_name, resolve_listing, ListOutcome, Resource, Tool, ToolAnnotations,
};
use ndc_mcp_rs::classify::is_read_only_tool;
use ndc_mcp_rs::config::{default_timeout, McpServerName};
use ndc_mcp_rs::input_schema::ObjectSchema;
use ndc_mcp_rs::state::{ConnectorState, McpClient};

fn tool(name: &str, annotations: Option<ToolAnnotations>) -> Tool {
    Tool {
        name: name.to_string(),
        description: None,
        input_schema: ObjectSchema::empty(),
        annotations,
    }
}

fn resource(name: &str, uri: &str) -> Resource {
    Resource { name: name.to_string(), description: None, uri: uri.to_string() }
}

#[test]
fn test_classifier_prefix_heuristic() {
    // A tool named list_users with no explicit read-only annotation
    // classifies as read-only; create_user classifies as mutating.
    assert!(is_read_only_tool(&tool("list_users", None)));
    assert!(!is_read_only_tool(&tool("create_user", None)));

    assert!(is_read_only_tool(&tool("get_thing", None)));
    assert!(is_read_only_tool(&tool("find_thing", None)));
    assert!(is_read_only_tool(&tool("search_thing", None)));
    assert!(!is_read_only_tool(&tool("delete_thing", None)));
    assert!(!is_read_only_tool(&tool("ge", None)));
}

#[test]
fn test_classifier_ignores_ascii_case() {
    assert!(is_read_only_tool(&tool("GetThing", None)));
    assert!(is_read_only_tool(&tool("LIST_USERS", None)));
    assert!(is_read_only_tool(&tool("SeArCh", None)));
}

#[test]
fn test_classifier_annotation_takes_priority() {
    let hinted_read_only = Some(ToolAnnotations { read_only_hint: Some(true) });
    let hinted_mutating = Some(ToolAnnotations { read_only_hint: Some(false) });
    let unhinted = Some(ToolAnnotations { read_only_hint: None });

    // An explicit annotation decides, whatever the name says.
    assert!(is_read_only_tool(&tool("write_thing", hinted_read_only)));
    assert!(!is_read_only_tool(&tool("get_thing", hinted_mutating)));
    // An annotation without the hint falls back to the name.
    assert!(is_read_only_tool(&tool("get_thing", unhinted)));
}

#[test]
fn test_resolve_listing_outcomes() {
    let listed: ListOutcome<u32> = ListOutcome::Listed(vec![1, 2, 3]);
    assert_eq!(resolve_listing(listed), Ok(vec![1, 2, 3]));

    // An unsupported capability is an empty list, not an error.
    let unsupported: ListOutcome<u32> = ListOutcome::Unsupported;
    assert_eq!(resolve_listing(unsupported), Ok(vec![]));

    let failed: ListOutcome<u32> = ListOutcome::Failed("connection reset".to_string());
    assert_eq!(resolve_listing(failed), Err("connection reset".to_string()));
}

#[test]
fn test_index_by_name_keeps_distinct_listing() {
    let items = vec![resource("a", "u1"), resource("b", "u2"), resource("c", "u3")];
    let indexed = index_by_name(items);
    let names: Vec<&str> = indexed.iter().map(|r| r.name.as_str()).collect();
    assert_eq!(names, vec!["a", "b", "c"]);
}

#[test]
fn test_index_by_name_last_entry_wins() {
    let items = vec![resource("a", "u1"), resource("b", "u2"), resource("a", "u3")];
    let indexed = index_by_name(items);
    assert_eq!(indexed.len(), 2);
    assert_eq!(indexed[0].name, "a");
    assert_eq!(indexed[0].uri, "u3");
    assert_eq!(indexed[1].name, "b");
    assert_eq!(indexed[1].uri, "u2");
}

#[test]
fn test_add_client_replaces_existing_backend() {
    let mut state = ConnectorState::new();
    state.add_client(
        McpServerName("db".to_string()),
        McpClient { resources: vec![resource("old", "u1")], tools: vec![] },
    );
    state.add_client(
        McpServerName("other".to_string()),
        McpClient { resources: vec![], tools: vec![] },
    );
    state.add_client(
        McpServerName("db".to_string()),
        McpClient { resources: vec![resource("new", "u2")], tools: vec![] },
    );
    assert_eq!(state.clients.len(), 2);
    assert_eq!(state.clients[0].0, McpServerName("db".to_string()));
    assert_eq!(state.clients[0].1.resources[0].name, "new");
    assert_eq!(state.clients[1].0, McpServerName("other".to_string()));
}

#[test]
fn test_find_client_by_name() {
    let mut state = ConnectorState::new();
    state.add_client(
        McpServerName("db".to_string()),
        McpClient { resources: vec![resource("r", "u")], tools: vec![] },
    );
    assert!(state.find_client(&"db".to_string()).is_some());
    assert!(state.find_client(&"nosuch".to_string()).is_none());
}

#[test]
fn test_default_timeout_is_thirty_seconds() {
    assert_eq!(default_timeout(), 30);
}
