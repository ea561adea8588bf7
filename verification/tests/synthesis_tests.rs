use ndc_mcp_rs::capability::{Resource, Tool};
use ndc_mcp_rs::config::McpServerName;
use ndc_mcp_rs::input_schema::{InstanceKind, ItemsDecl, KindsDecl, ObjectSchema, SchemaNode};
use ndc_mcp_rs::ndc::NdcType;
use ndc_mcp_rs::schema::{create_object_types, create_scalar_types, generate_schema_from_state};
use ndc_mcp_rs::state::{ConnectorState, McpClient};

fn tool_with_one_argument(name: &str, argument: &str, kind: InstanceKind) -> Tool {
    Tool {
        name: name.to_string(),
        description: None,
        input_schema: ObjectSchema {
            properties: vec![(
                argument.to_string(),
                SchemaNode { kinds: KindsDecl::One(kind), items: ItemsDecl::Missing, description: None },
            )],
            required: vec![argument.to_string()],
        },
        annotations: None,
    }
}

fn resource(name: &str, uri: &str) -> Resource {
    Resource { name: name.to_string(), description: None, uri: uri.to_string() }
}

#[test]
fn test_same_tool_name_on_two_backends_yields_two_entries() {
    // Backend db1 and backend db2 both expose a tool get_item; the merged
    // schema carries two distinct qualified names with independent
    // argument schemas.
    let mut state = ConnectorState::new();
    state.add_client(
        McpServerName("db1".to_string()),
        McpClient {
            resources: vec![],
            tools: vec![tool_with_one_argument("get_item", "limit", InstanceKind::Integer)],
        },
    );
    state.add_client(
        McpServerName("db2".to_string()),
        McpClient {
            resources: vec![],
            tools: vec![tool_with_one_argument("get_item", "q", InstanceKind::Str)],
        },
    );

    let schema = generate_schema_from_state(&state);
    assert_eq!(schema.functions.len(), 2);
    assert_eq!(schema.functions[0].name, "db1__get_item");
    assert_eq!(schema.functions[1].name, "db2__get_item");
    assert_eq!(schema.functions[0].arguments.len(), 1);
    assert_eq!(schema.functions[0].arguments[0].0, "limit");
    assert_eq!(
        schema.functions[0].arguments[0].1.argument_type,
        NdcType::Named { name: "Int".to_string() }
    );
    assert_eq!(schema.functions[1].arguments.len(), 1);
    assert_eq!(schema.functions[1].arguments[0].0, "q");
    assert_eq!(
        schema.functions[1].arguments[0].1.argument_type,
        NdcType::Named { name: "String".to_string() }
    );
    assert_eq!(schema.procedures.len(), 0);
    assert_eq!(schema.collections.len(), 0);
}

#[test]
fn test_synthesis_is_idempotent() {
    let mut state = ConnectorState::new();
    state.add_client(
        McpServerName("db1".to_string()),
        McpClient {
            resources: vec![resource("readme", "file:///readme")],
            tools: vec![
                tool_with_one_argument("get_item", "limit", InstanceKind::Integer),
                tool_with_one_argument("create_item", "body", InstanceKind::Str),
            ],
        },
    );

    let first = generate_schema_from_state(&state);
    let second = generate_schema_from_state(&state);
    assert_eq!(first, second);
}

#[test]
fn test_empty_backend_contributes_no_entries() {
    // A backend with zero resources and zero tools yields zero entries,
    // and the remaining backends come through unchanged.
    let mut with_empty = ConnectorState::new();
    with_empty.add_client(
        McpServerName("db1".to_string()),
        McpClient {
            resources: vec![resource("readme", "file:///readme")],
            tools: vec![tool_with_one_argument("get_item", "limit", InstanceKind::Integer)],
        },
    );
    with_empty.add_client(
        McpServerName("hollow".to_string()),
        McpClient { resources: vec![], tools: vec![] },
    );

    let mut without_empty = ConnectorState::new();
    without_empty.add_client(
        McpServerName("db1".to_string()),
        McpClient {
            resources: vec![resource("readme", "file:///readme")],
            tools: vec![tool_with_one_argument("get_item", "limit", InstanceKind::Integer)],
        },
    );

    let schema = generate_schema_from_state(&with_empty);
    assert_eq!(schema.collections.len(), 1);
    assert_eq!(schema.functions.len(), 1);
    assert_eq!(schema.procedures.len(), 0);
    assert_eq!(schema, generate_schema_from_state(&without_empty));
}

#[test]
fn test_resources_become_collections() {
    let mut state = ConnectorState::new();
    state.add_client(
        McpServerName("files".to_string()),
        McpClient {
            resources: vec![Resource {
                name: "notes".to_string(),
                description: Some("All notes".to_string()),
                uri: "file:///notes".to_string(),
            }],
            tools: vec![],
        },
    );
    let schema = generate_schema_from_state(&state);
    assert_eq!(schema.collections.len(), 1);
    let collection = &schema.collections[0];
    assert_eq!(collection.name, "files__notes");
    assert_eq!(collection.description.as_deref(), Some("All notes"));
    assert_eq!(collection.collection_type, "ResourceOutput");
    assert!(collection.arguments.is_empty());
}

#[test]
fn test_tools_split_into_functions_and_procedures() {
    let mut state = ConnectorState::new();
    state.add_client(
        McpServerName("db".to_string()),
        McpClient {
            resources: vec![],
            tools: vec![
                tool_with_one_argument("list_users", "page", InstanceKind::Integer),
                tool_with_one_argument("create_user", "name", InstanceKind::Str),
            ],
        },
    );
    let schema = generate_schema_from_state(&state);
    assert_eq!(schema.functions.len(), 1);
    assert_eq!(schema.functions[0].name, "db__list_users");
    assert_eq!(
        schema.functions[0].result_type,
        NdcType::Named { name: "ToolOutput".to_string() }
    );
    assert_eq!(schema.procedures.len(), 1);
    assert_eq!(schema.procedures[0].name, "db__create_user");
    assert_eq!(
        schema.procedures[0].result_type,
        NdcType::Named { name: "ToolOutput".to_string() }
    );
}

#[test]
fn test_fixed_scalar_catalog() {
    let scalars = create_scalar_types();
    let names: Vec<&str> = scalars.iter().map(|entry| entry.0.as_str()).collect();
    assert_eq!(names, vec!["String", "Boolean", "Int", "Float", "Json"]);
}

#[test]
fn test_fixed_object_type_catalog() {
    let object_types = create_object_types();
    let names: Vec<&str> = object_types.iter().map(|entry| entry.0.as_str()).collect();
    assert_eq!(names, vec!["ResourceOutput", "Content", "ToolOutput"]);

    let resource_output = &object_types[0].1;
    assert_eq!(resource_output.fields.len(), 1);
    assert_eq!(resource_output.fields[0].0, "content");
    assert_eq!(
        resource_output.fields[0].1.field_type,
        NdcType::Named { name: "String".to_string() }
    );

    let content = &object_types[1].1;
    assert_eq!(content.fields.len(), 2);
    assert_eq!(content.fields[0].0, "type");
    assert_eq!(content.fields[1].0, "text");

    let tool_output = &object_types[2].1;
    assert_eq!(tool_output.fields.len(), 2);
    assert_eq!(tool_output.fields[0].0, "content");
    assert_eq!(
        tool_output.fields[0].1.field_type,
        NdcType::Array { element_type: Box::new(NdcType::Named { name: "Content".to_string() }) }
    );
    assert_eq!(tool_output.fields[1].0, "structured_content");
    assert_eq!(
        tool_output.fields[1].1.field_type,
        NdcType::Nullable {
            underlying_type: Box::new(NdcType::Named { name: "String".to_string() }),
        }
    );
}

#[test]
fn test_fixed_catalogs_emitted_for_empty_state() {
    let schema = generate_schema_from_state(&ConnectorState::new());
    assert_eq!(schema.collections.len(), 0);
    assert_eq!(schema.functions.len(), 0);
    assert_eq!(schema.procedures.len(), 0);
    assert_eq!(schema.object_types.len(), 3);
    assert_eq!(schema.scalar_types.len(), 5);
}
