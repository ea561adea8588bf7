use ndc_mcp_rs::capability::{Resource, Tool};
use ndc_mcp_rs::config::McpServerName;
use ndc_mcp_rs::input_schema::ObjectSchema;
use ndc_mcp_rs::router::{
    collect_query_arguments, filter_text_contents, resolve_procedure_target,
    resolve_query_target, Argument, ContentItem, ProcedureTarget, QueryTarget, RouteError,
};
use ndc_mcp_rs::state::{ConnectorState, McpClient};

fn bare_tool(name: &str) -> Tool {
    Tool {
        name: name.to_string(),
        description: None,
        input_schema: ObjectSchema::empty(),
        annotations: None,
    }
}

fn sample_state() -> ConnectorState {
    let mut state = ConnectorState::new();
    state.add_client(
        McpServerName("db1".to_string()),
        McpClient {
            resources: vec![Resource {
                name: "notes".to_string(),
                description: None,
                uri: "file:///notes".to_string(),
            }],
            tools: vec![bare_tool("get_item"), bare_tool("create_item")],
        },
    );
    state
}

#[test]
fn test_unknown_backend_is_not_found() {
    // Querying the qualified name nosuch__thing gives a not-found error,
    // not an internal one.
    let state = sample_state();
    assert_eq!(
        resolve_query_target(&state, "nosuch__thing"),
        Err(RouteError::BackendNotFound)
    );
}

#[test]
fn test_unknown_operation_is_not_found() {
    let state = sample_state();
    assert_eq!(
        resolve_query_target(&state, "db1__nothing"),
        Err(RouteError::OperationNotFound)
    );
}

#[test]
fn test_malformed_names_are_bad_requests() {
    let state = sample_state();
    assert_eq!(resolve_query_target(&state, "no_separator"), Err(RouteError::MalformedName));
    assert_eq!(resolve_query_target(&state, "a__b__c"), Err(RouteError::MalformedName));
    assert_eq!(resolve_query_target(&state, "__x"), Err(RouteError::MalformedName));
    assert_eq!(resolve_query_target(&state, "x__"), Err(RouteError::MalformedName));
    assert_eq!(
        resolve_procedure_target(&state, "no_separator"),
        Err(RouteError::MalformedName)
    );
}

#[test]
fn test_query_resolves_resource_before_tool() {
    let mut state = ConnectorState::new();
    // A backend that exposes a resource and a tool under the same local
    // identifier: the query path finds the resource first.
    state.add_client(
        McpServerName("db1".to_string()),
        McpClient {
            resources: vec![Resource {
                name: "item".to_string(),
                description: None,
                uri: "file:///item".to_string(),
            }],
            tools: vec![bare_tool("item")],
        },
    );
    assert_eq!(
        resolve_query_target(&state, "db1__item"),
        Ok(QueryTarget::Resource {
            backend: "db1".to_string(),
            uri: "file:///item".to_string(),
        })
    );
}

#[test]
fn test_query_resolves_tool_target() {
    let state = sample_state();
    assert_eq!(
        resolve_query_target(&state, "db1__get_item"),
        Ok(QueryTarget::Tool { backend: "db1".to_string(), tool: "get_item".to_string() })
    );
}

#[test]
fn test_query_resolves_resource_target() {
    let state = sample_state();
    assert_eq!(
        resolve_query_target(&state, "db1__notes"),
        Ok(QueryTarget::Resource {
            backend: "db1".to_string(),
            uri: "file:///notes".to_string(),
        })
    );
}

#[test]
fn test_mutation_resolves_tools_only() {
    let state = sample_state();
    assert_eq!(
        resolve_procedure_target(&state, "db1__create_item"),
        Ok(ProcedureTarget { backend: "db1".to_string(), tool: "create_item".to_string() })
    );
    // The mutation path never reaches resources.
    assert_eq!(
        resolve_procedure_target(&state, "db1__notes"),
        Err(RouteError::OperationNotFound)
    );
    assert_eq!(
        resolve_procedure_target(&state, "nosuch__create_item"),
        Err(RouteError::BackendNotFound)
    );
}

#[test]
fn test_collect_query_arguments_keeps_literals_drops_variables() {
    let arguments: Vec<(String, Argument<i64>)> = vec![
        ("limit".to_string(), Argument::Literal { value: 10 }),
        ("offset".to_string(), Argument::Variable { name: "v".to_string() }),
        ("page".to_string(), Argument::Literal { value: 3 }),
    ];
    let collected = collect_query_arguments(arguments);
    assert_eq!(collected, vec![("limit".to_string(), 10), ("page".to_string(), 3)]);
}

#[test]
fn test_collect_query_arguments_empty() {
    let arguments: Vec<(String, Argument<i64>)> = vec![];
    assert_eq!(collect_query_arguments(arguments), vec![]);
}

#[test]
fn test_filter_text_contents_keeps_text_in_order() {
    let items: Vec<ContentItem<&str>> = vec![
        ContentItem::Text { value: "first" },
        ContentItem::Other { value: "image" },
        ContentItem::Text { value: "second" },
    ];
    let kept = filter_text_contents(items);
    assert_eq!(kept.len(), 2);
    assert!(matches!(kept[0], ContentItem::Text { value: "first" }));
    assert!(matches!(kept[1], ContentItem::Text { value: "second" }));
}

#[test]
fn test_filter_text_contents_drops_everything_else() {
    let items: Vec<ContentItem<u8>> =
        vec![ContentItem::Other { value: 1 }, ContentItem::Other { value: 2 }];
    assert_eq!(filter_text_contents(items).len(), 0);
}
