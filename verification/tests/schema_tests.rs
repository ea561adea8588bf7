use ndc_mcp_rs::input_schema::{InstanceKind, ItemsDecl, KindsDecl, ObjectSchema, SchemaNode};
use ndc_mcp_rs::ndc::NdcType;
use ndc_mcp_rs::translate::{map_schema_to_ndc_type, tool_arguments_schema};

fn plain_node(kind: InstanceKind) -> SchemaNode {
    SchemaNode { kinds: KindsDecl::One(kind), items: ItemsDecl::Missing, description: None }
}

fn array_node(item: SchemaNode) -> SchemaNode {
    SchemaNode {
        kinds: KindsDecl::One(InstanceKind::Array),
        items: ItemsDecl::One(Box::new(item)),
        description: None,
    }
}

fn array_node_without_items() -> SchemaNode {
    SchemaNode {
        kinds: KindsDecl::One(InstanceKind::Array),
        items: ItemsDecl::Missing,
        description: None,
    }
}

fn described(mut node: SchemaNode, description: &str) -> SchemaNode {
    node.description = Some(description.to_string());
    node
}

#[test]
fn test_map_schema_to_ndc_type_primitives() {
    // Test string type
    let string_schema = plain_node(InstanceKind::Str);
    let ndc_type = map_schema_to_ndc_type(&string_schema);
    match ndc_type {
        NdcType::Named { name } => assert_eq!(name.as_str(), "String"),
        _ => panic!("Expected Named type"),
    }

    // Test integer type
    let int_schema = plain_node(InstanceKind::Integer);
    let ndc_type = map_schema_to_ndc_type(&int_schema);
    match ndc_type {
        NdcType::Named { name } => assert_eq!(name.as_str(), "Int"),
        _ => panic!("Expected Named type"),
    }

    // Test number type
    let number_schema = plain_node(InstanceKind::Number);
    let ndc_type = map_schema_to_ndc_type(&number_schema);
    match ndc_type {
        NdcType::Named { name } => assert_eq!(name.as_str(), "Float"),
        _ => panic!("Expected Named type"),
    }

    // Test boolean type
    let bool_schema = plain_node(InstanceKind::Boolean);
    let ndc_type = map_schema_to_ndc_type(&bool_schema);
    match ndc_type {
        NdcType::Named { name } => assert_eq!(name.as_str(), "Boolean"),
        _ => panic!("Expected Named type"),
    }
}

#[test]
fn test_map_schema_to_ndc_type_arrays() {
    // Test array of strings
    let string_array_schema = array_node(plain_node(InstanceKind::Str));
    let ndc_type = map_schema_to_ndc_type(&string_array_schema);
    match ndc_type {
        NdcType::Array { element_type } => match element_type.as_ref() {
            NdcType::Named { name } => assert_eq!(name.as_str(), "String"),
            _ => panic!("Expected Named element type"),
        },
        _ => panic!("Expected Array type"),
    }

    // Test array of integers
    let int_array_schema = array_node(plain_node(InstanceKind::Integer));
    let ndc_type = map_schema_to_ndc_type(&int_array_schema);
    match ndc_type {
        NdcType::Array { element_type } => match element_type.as_ref() {
            NdcType::Named { name } => assert_eq!(name.as_str(), "Int"),
            _ => panic!("Expected Named element type"),
        },
        _ => panic!("Expected Array type"),
    }

    // Test array of numbers
    let number_array_schema = array_node(plain_node(InstanceKind::Number));
    let ndc_type = map_schema_to_ndc_type(&number_array_schema);
    match ndc_type {
        NdcType::Array { element_type } => match element_type.as_ref() {
            NdcType::Named { name } => assert_eq!(name.as_str(), "Float"),
            _ => panic!("Expected Named element type"),
        },
        _ => panic!("Expected Array type"),
    }

    // Test array of booleans
    let bool_array_schema = array_node(plain_node(InstanceKind::Boolean));
    let ndc_type = map_schema_to_ndc_type(&bool_array_schema);
    match ndc_type {
        NdcType::Array { element_type } => match element_type.as_ref() {
            NdcType::Named { name } => assert_eq!(name.as_str(), "Boolean"),
            _ => panic!("Expected Named element type"),
        },
        _ => panic!("Expected Array type"),
    }

    // Test array without items schema (should default to String array)
    let generic_array_schema = array_node_without_items();
    let ndc_type = map_schema_to_ndc_type(&generic_array_schema);
    match ndc_type {
        NdcType::Array { element_type } => match element_type.as_ref() {
            NdcType::Named { name } => assert_eq!(name.as_str(), "String"),
            _ => panic!("Expected Named element type"),
        },
        _ => panic!("Expected Array type"),
    }
}

#[test]
fn test_map_schema_to_ndc_type_nested_arrays() {
    // Test array of arrays of strings
    let nested_array_schema = array_node(array_node(plain_node(InstanceKind::Str)));
    let ndc_type = map_schema_to_ndc_type(&nested_array_schema);
    match ndc_type {
        NdcType::Array { element_type } => match element_type.as_ref() {
            NdcType::Array { element_type: inner_element_type } => {
                match inner_element_type.as_ref() {
                    NdcType::Named { name } => assert_eq!(name.as_str(), "String"),
                    _ => panic!("Expected Named inner element type"),
                }
            }
            _ => panic!("Expected Array element type"),
        },
        _ => panic!("Expected Array type"),
    }
}

#[test]
fn test_tool_arguments_schema_with_arrays() {
    // Test a realistic schema with various array types
    let input_schema = ObjectSchema {
        properties: vec![
            (
                "names".to_string(),
                described(array_node(plain_node(InstanceKind::Str)), "Array of names"),
            ),
            (
                "scores".to_string(),
                described(array_node(plain_node(InstanceKind::Number)), "Array of scores"),
            ),
            (
                "flags".to_string(),
                described(array_node(plain_node(InstanceKind::Boolean)), "Array of boolean flags"),
            ),
            (
                "ids".to_string(),
                described(array_node(plain_node(InstanceKind::Integer)), "Array of integer IDs"),
            ),
            (
                "mixed_data".to_string(),
                described(array_node_without_items(), "Array with no specific item type"),
            ),
        ],
        required: vec!["names".to_string(), "scores".to_string()],
    };

    let arguments = tool_arguments_schema(&input_schema);

    // Check that we have the expected arguments
    assert_eq!(arguments.len(), 5);

    let get_arg = |name: &str| {
        &arguments.iter().find(|entry| entry.0 == name).unwrap().1
    };

    // Check names argument (required string array)
    let names_arg = get_arg("names");
    match &names_arg.argument_type {
        NdcType::Array { element_type } => match element_type.as_ref() {
            NdcType::Named { name } => assert_eq!(name.as_str(), "String"),
            _ => panic!("Expected String element type for names"),
        },
        _ => panic!("Expected Array type for names"),
    }

    // Check scores argument (required number array)
    let scores_arg = get_arg("scores");
    match &scores_arg.argument_type {
        NdcType::Array { element_type } => match element_type.as_ref() {
            NdcType::Named { name } => assert_eq!(name.as_str(), "Float"),
            _ => panic!("Expected Float element type for scores"),
        },
        _ => panic!("Expected Array type for scores"),
    }

    // Check flags argument (optional boolean array)
    let flags_arg = get_arg("flags");
    match &flags_arg.argument_type {
        NdcType::Nullable { underlying_type } => match underlying_type.as_ref() {
            NdcType::Array { element_type } => match element_type.as_ref() {
                NdcType::Named { name } => assert_eq!(name.as_str(), "Boolean"),
                _ => panic!("Expected Boolean element type for flags"),
            },
            _ => panic!("Expected Array underlying type for flags"),
        },
        _ => panic!("Expected Nullable type for flags"),
    }

    // Check ids argument (optional integer array)
    let ids_arg = get_arg("ids");
    match &ids_arg.argument_type {
        NdcType::Nullable { underlying_type } => match underlying_type.as_ref() {
            NdcType::Array { element_type } => match element_type.as_ref() {
                NdcType::Named { name } => assert_eq!(name.as_str(), "Int"),
                _ => panic!("Expected Int element type for ids"),
            },
            _ => panic!("Expected Array underlying type for ids"),
        },
        _ => panic!("Expected Nullable type for ids"),
    }

    // Check mixed_data argument (optional String array)
    let mixed_arg = get_arg("mixed_data");
    match &mixed_arg.argument_type {
        NdcType::Nullable { underlying_type } => match underlying_type.as_ref() {
            NdcType::Array { element_type } => match element_type.as_ref() {
                NdcType::Named { name } => assert_eq!(name.as_str(), "String"),
                _ => panic!("Expected String element type for mixed_data"),
            },
            _ => panic!("Expected Array underlying type for mixed_data"),
        },
        _ => panic!("Expected Nullable type for mixed_data"),
    }
}

#[test]
fn test_malformed_schema_nodes_translate_to_json() {
    // No declared kind at all
    let undeclared = SchemaNode {
        kinds: KindsDecl::Undeclared,
        items: ItemsDecl::Missing,
        description: None,
    };
    assert_eq!(
        map_schema_to_ndc_type(&undeclared),
        NdcType::Named { name: "Json".to_string() }
    );

    // Several declared kinds at once
    let several = SchemaNode {
        kinds: KindsDecl::Several,
        items: ItemsDecl::Missing,
        description: None,
    };
    assert_eq!(
        map_schema_to_ndc_type(&several),
        NdcType::Named { name: "Json".to_string() }
    );

    // Object and null kinds carry no usable structure
    assert_eq!(
        map_schema_to_ndc_type(&plain_node(InstanceKind::Object)),
        NdcType::Named { name: "Json".to_string() }
    );
    assert_eq!(
        map_schema_to_ndc_type(&plain_node(InstanceKind::Null)),
        NdcType::Named { name: "Json".to_string() }
    );
}

#[test]
fn test_array_with_ambiguous_items_falls_back_to_string_array() {
    let ambiguous = SchemaNode {
        kinds: KindsDecl::One(InstanceKind::Array),
        items: ItemsDecl::Ambiguous,
        description: None,
    };
    assert_eq!(
        map_schema_to_ndc_type(&ambiguous),
        NdcType::Array { element_type: Box::new(NdcType::Named { name: "String".to_string() }) }
    );
}

#[test]
fn test_limit_argument_translates_to_optional_int() {
    // A tool argument schema {properties: {limit: {type: integer}}, required: []}
    // translates to one optional Int argument named limit.
    let input_schema = ObjectSchema {
        properties: vec![("limit".to_string(), plain_node(InstanceKind::Integer))],
        required: vec![],
    };
    let arguments = tool_arguments_schema(&input_schema);
    assert_eq!(arguments.len(), 1);
    assert_eq!(arguments[0].0, "limit");
    assert_eq!(arguments[0].1.description, None);
    assert_eq!(
        arguments[0].1.argument_type,
        NdcType::Nullable {
            underlying_type: Box::new(NdcType::Named { name: "Int".to_string() }),
        }
    );
}

#[test]
fn test_argument_description_carries_over() {
    let input_schema = ObjectSchema {
        properties: vec![(
            "q".to_string(),
            described(plain_node(InstanceKind::Str), "The query text"),
        )],
        required: vec!["q".to_string()],
    };
    let arguments = tool_arguments_schema(&input_schema);
    assert_eq!(arguments.len(), 1);
    assert_eq!(arguments[0].1.description.as_deref(), Some("The query text"));
    assert_eq!(arguments[0].1.argument_type, NdcType::Named { name: "String".to_string() });
}
