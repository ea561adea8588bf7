//! The schema synthesizer: from the capability catalogs of all connected
//! backends to the merged virtual schema.
//!
//! Every resource becomes one collection entry, every read-only tool one
//! function entry, every mutating tool one procedure entry, each under
//! its qualified name.  The three fixed object types and the fixed scalar
//! catalog are emitted unconditionally.  The whole schema is a pure
//! function of the catalogs: nothing else flows in.

use vstd::prelude::*;

use crate::capability::{Resource, ResourceV, Tool, ToolV};
use crate::classify::{is_read_only_tool, spec_is_read_only};
use crate::config::McpServerName;
use crate::names::{compose, contains_sep, lemma_compose_injective, spec_compose, wf_name_part};
use crate::ndc::{
    CollectionInfo, CollectionInfoV, FunctionInfo, FunctionInfoV, NdcTypeV, ObjectField,
    ObjectFieldV, ObjectType, ObjectTypeV, ProcedureInfo, ProcedureInfoV, ScalarRepresentation,
    ScalarType, SchemaResponse, SchemaResponseV,
};
use crate::state::{ConnectorState, McpClientV};
use crate::translate::{
    clone_opt_string, create_named_type, spec_named, spec_tool_arguments, tool_arguments_schema,
};

verus! {

/// The collection entry one resource of backend `server` synthesizes to.
pub open spec fn spec_collection_of(server: Seq<char>, r: ResourceV) -> CollectionInfoV {
    CollectionInfoV {
        name: spec_compose(server, r.name),
        description: r.description,
        arguments: Seq::empty(),
        collection_type: "ResourceOutput"@,
    }
}

/// The collection entries of one backend, in resource order.
pub open spec fn spec_collections_of(server: Seq<char>, rs: Seq<ResourceV>) -> Seq<
    CollectionInfoV,
> {
    rs.map_values(|r: ResourceV| spec_collection_of(server, r))
}

/// The function entry one read-only tool of backend `server` synthesizes
/// to.
pub open spec fn spec_function_of(server: Seq<char>, t: ToolV) -> FunctionInfoV {
    FunctionInfoV {
        name: spec_compose(server, t.name),
        description: t.description,
        arguments: spec_tool_arguments(t.input_schema),
        result_type: spec_named("ToolOutput"@),
    }
}

/// The function entries of one backend: its read-only tools, in tool
/// order.
pub open spec fn spec_functions_of(server: Seq<char>, ts: Seq<ToolV>) -> Seq<FunctionInfoV>
    decreases ts.len(),
{
    if ts.len() == 0 {
        Seq::empty()
    } else {
        spec_functions_of(server, ts.drop_last()) + if spec_is_read_only(ts.last()) {
            seq![spec_function_of(server, ts.last())]
        } else {
            Seq::empty()
        }
    }
}

/// The procedure entry one mutating tool of backend `server` synthesizes
/// to.
pub open spec fn spec_procedure_of(server: Seq<char>, t: ToolV) -> ProcedureInfoV {
    ProcedureInfoV {
        name: spec_compose(server, t.name),
        description: t.description,
        arguments: spec_tool_arguments(t.input_schema),
        result_type: spec_named("ToolOutput"@),
    }
}

/// The procedure entries of one backend: its mutating tools, in tool
/// order.
pub open spec fn spec_procedures_of(server: Seq<char>, ts: Seq<ToolV>) -> Seq<ProcedureInfoV>
    decreases ts.len(),
{
    if ts.len() == 0 {
        Seq::empty()
    } else {
        spec_procedures_of(server, ts.drop_last()) + if !spec_is_read_only(ts.last()) {
            seq![spec_procedure_of(server, ts.last())]
        } else {
            Seq::empty()
        }
    }
}

/// All collection entries of a state, backend by backend.
pub open spec fn spec_state_collections(clients: Seq<(Seq<char>, McpClientV)>) -> Seq<
    CollectionInfoV,
>
    decreases clients.len(),
{
    if clients.len() == 0 {
        Seq::empty()
    } else {
        spec_state_collections(clients.drop_last()) + spec_collections_of(
            clients.last().0,
            clients.last().1.resources,
        )
    }
}

/// All function entries of a state, backend by backend.
pub open spec fn spec_state_functions(clients: Seq<(Seq<char>, McpClientV)>) -> Seq<
    FunctionInfoV,
>
    decreases clients.len(),
{
    if clients.len() == 0 {
        Seq::empty()
    } else {
        spec_state_functions(clients.drop_last()) + spec_functions_of(
            clients.last().0,
            clients.last().1.tools,
        )
    }
}

/// All procedure entries of a state, backend by backend.
pub open spec fn spec_state_procedures(clients: Seq<(Seq<char>, McpClientV)>) -> Seq<
    ProcedureInfoV,
>
    decreases clients.len(),
{
    if clients.len() == 0 {
        Seq::empty()
    } else {
        spec_state_procedures(clients.drop_last()) + spec_procedures_of(
            clients.last().0,
            clients.last().1.tools,
        )
    }
}

/// The fixed object-type catalog: `ResourceOutput` for one fetched
/// resource, `Content` for one item of a tool's output, `ToolOutput` for
/// a whole tool reply.
pub open spec fn spec_object_types() -> Seq<(Seq<char>, ObjectTypeV)> {
    seq![
        ("ResourceOutput"@, spec_resource_output_type()),
        ("Content"@, spec_content_type()),
        ("ToolOutput"@, spec_tool_output_type()),
    ]
}

/// The object type of one fetched resource: its whole content as one
/// string field.
pub open spec fn spec_resource_output_type() -> ObjectTypeV {
    ObjectTypeV {
        description: Some("Output type for MCP resources"@),
        fields: seq![
            (
                "content"@,
                ObjectFieldV {
                    description: Some("The content of the resource"@),
                    field_type: spec_named("String"@),
                },
            ),
        ],
    }
}

/// The object type of one content item of a tool reply.
pub open spec fn spec_content_type() -> ObjectTypeV {
    ObjectTypeV {
        description: Some("Content type for MCP tools"@),
        fields: seq![
            (
                "type"@,
                ObjectFieldV {
                    description: Some("The type of the content"@),
                    field_type: spec_named("String"@),
                },
            ),
            (
                "text"@,
                ObjectFieldV {
                    description: Some("The value of the content"@),
                    field_type: spec_named("String"@),
                },
            ),
        ],
    }
}

/// The object type of one whole tool reply: its content items and the
/// optional structured output.
pub open spec fn spec_tool_output_type() -> ObjectTypeV {
    ObjectTypeV {
        description: Some("Output type for MCP tools"@),
        fields: seq![
            (
                "content"@,
                ObjectFieldV {
                    description: Some("The text output of the tool"@),
                    field_type: NdcTypeV::Array {
                        element_type: Box::new(spec_named("Content"@)),
                    },
                },
            ),
            (
                "structured_content"@,
                ObjectFieldV {
                    description: Some(
                        "The structured output of the tool. This is a JSON string."@,
                    ),
                    field_type: NdcTypeV::Nullable {
                        underlying_type: Box::new(spec_named("String"@)),
                    },
                },
            ),
        ],
    }
}

/// The fixed scalar catalog.  Every entry is emitted whether or not some
/// operation uses it; unused entries are harmless.
pub open spec fn spec_scalar_types() -> Seq<(Seq<char>, ScalarType)> {
    seq![
        ("String"@, ScalarType { representation: ScalarRepresentation::StringRep }),
        ("Boolean"@, ScalarType { representation: ScalarRepresentation::BooleanRep }),
        ("Int"@, ScalarType { representation: ScalarRepresentation::Int32Rep }),
        ("Float"@, ScalarType { representation: ScalarRepresentation::Float64Rep }),
        ("Json"@, ScalarType { representation: ScalarRepresentation::JsonRep }),
    ]
}

/// The whole virtual schema of a state.
pub open spec fn spec_schema(clients: Seq<(Seq<char>, McpClientV)>) -> SchemaResponseV {
    SchemaResponseV {
        collections: spec_state_collections(clients),
        functions: spec_state_functions(clients),
        procedures: spec_state_procedures(clients),
        object_types: spec_object_types(),
        scalar_types: spec_scalar_types(),
    }
}

/// Synthesizes the collection entries of one backend: one per resource,
/// under its qualified name, with the resource's description, no
/// arguments, and the fixed row type `ResourceOutput`.
pub fn map_resources_to_collections(
    server_name: &McpServerName,
    resources: &Vec<Resource>,
) -> (r: Vec<CollectionInfo>)
    ensures
        r.deep_view() == spec_collections_of(server_name.deep_view(), resources.deep_view()),
{
    let ghost rs = resources.deep_view();
    let ghost server = server_name.deep_view();
    let mut out: Vec<CollectionInfo> = Vec::new();
    let mut i: usize = 0;
    while i < resources.len()
        invariant
            i <= resources.len(),
            rs == resources.deep_view(),
            server == server_name.deep_view(),
            out.deep_view() == spec_collections_of(server, rs.take(i as int)),
        decreases resources.len() - i,
    {
        let resource = &resources[i];
        let collection = CollectionInfo {
            name: compose(server_name.0.as_str(), resource.name.as_str()),
            description: clone_opt_string(&resource.description),
            arguments: Vec::new(),
            collection_type: "ResourceOutput".to_owned(),
        };
        let ghost prev = out.deep_view();
        out.push(collection);
        proof {
            assert(out.deep_view().last() =~~= spec_collection_of(server, rs[i as int]));
            assert(out.deep_view() =~= prev.push(spec_collection_of(server, rs[i as int])));
            assert(spec_collections_of(server, rs.take(i + 1)) =~= spec_collections_of(
                server,
                rs.take(i as int),
            ).push(spec_collection_of(server, rs[i as int])));
        }
        i = i + 1;
    }
    proof {
        assert(rs.take(resources.len() as int) =~= rs);
    }
    out
}

/// Synthesizes the function entries of one backend: one per read-only
/// tool, under its qualified name, with the translated argument map and
/// the fixed result type `ToolOutput`.
pub fn map_tools_to_functions(server_name: &McpServerName, tools: &Vec<Tool>) -> (r: Vec<
    FunctionInfo,
>)
    ensures
        r.deep_view() == spec_functions_of(server_name.deep_view(), tools.deep_view()),
{
    let ghost ts = tools.deep_view();
    let ghost server = server_name.deep_view();
    let mut out: Vec<FunctionInfo> = Vec::new();
    let mut i: usize = 0;
    while i < tools.len()
        invariant
            i <= tools.len(),
            ts == tools.deep_view(),
            server == server_name.deep_view(),
            out.deep_view() == spec_functions_of(server, ts.take(i as int)),
        decreases tools.len() - i,
    {
        let tool = &tools[i];
        if is_read_only_tool(tool) {
            let function = FunctionInfo {
                name: compose(server_name.0.as_str(), tool.name.as_str()),
                description: clone_opt_string(&tool.description),
                arguments: tool_arguments_schema(&tool.input_schema),
                result_type: create_named_type("ToolOutput"),
            };
            out.push(function);
        }
        proof {
            assert(ts.take(i + 1).drop_last() =~= ts.take(i as int));
            assert(ts.take(i + 1).last() == ts[i as int]);
        }
        i = i + 1;
    }
    proof {
        assert(ts.take(tools.len() as int) =~= ts);
    }
    out
}

/// Synthesizes the procedure entries of one backend: one per mutating
/// tool, under its qualified name, with the translated argument map and
/// the fixed result type `ToolOutput`.
pub fn map_tools_to_procedures(server_name: &McpServerName, tools: &Vec<Tool>) -> (r: Vec<
    ProcedureInfo,
>)
    ensures
        r.deep_view() == spec_procedures_of(server_name.deep_view(), tools.deep_view()),
{
    let ghost ts = tools.deep_view();
    let ghost server = server_name.deep_view();
    let mut out: Vec<ProcedureInfo> = Vec::new();
    let mut i: usize = 0;
    while i < tools.len()
        invariant
            i <= tools.len(),
            ts == tools.deep_view(),
            server == server_name.deep_view(),
            out.deep_view() == spec_procedures_of(server, ts.take(i as int)),
        decreases tools.len() - i,
    {
        let tool = &tools[i];
        if !is_read_only_tool(tool) {
            let procedure = ProcedureInfo {
                name: compose(server_name.0.as_str(), tool.name.as_str()),
                description: clone_opt_string(&tool.description),
                arguments: tool_arguments_schema(&tool.input_schema),
                result_type: create_named_type("ToolOutput"),
            };
            out.push(procedure);
        }
        proof {
            assert(ts.take(i + 1).drop_last() =~= ts.take(i as int));
            assert(ts.take(i + 1).last() == ts[i as int]);
        }
        i = i + 1;
    }
    proof {
        assert(ts.take(tools.len() as int) =~= ts);
    }
    out
}

/// Builds one field of a fixed object type.
fn object_field(description: &str, field_type: crate::ndc::NdcType) -> (r: ObjectField)
    ensures
        r.deep_view() == (ObjectFieldV {
            description: Some(description@),
            field_type: field_type.deep_view(),
        }),
{
    ObjectField { description: Some(description.to_owned()), field_type }
}

/// Emits the fixed object-type catalog.
pub fn create_object_types() -> (r: Vec<(String, ObjectType)>)
    ensures
        r.deep_view() == spec_object_types(),
{
    let mut out: Vec<(String, ObjectType)> = Vec::new();

    let mut resource_fields: Vec<(String, ObjectField)> = Vec::new();
    resource_fields.push(
        (
            "content".to_owned(),
            object_field("The content of the resource", create_named_type("String")),
        ),
    );
    out.push(
        (
            "ResourceOutput".to_owned(),
            ObjectType {
                description: Some("Output type for MCP resources".to_owned()),
                fields: resource_fields,
            },
        ),
    );

    let mut content_fields: Vec<(String, ObjectField)> = Vec::new();
    content_fields.push(
        ("type".to_owned(), object_field("The type of the content", create_named_type("String"))),
    );
    content_fields.push(
        ("text".to_owned(), object_field("The value of the content", create_named_type("String"))),
    );
    out.push(
        (
            "Content".to_owned(),
            ObjectType {
                description: Some("Content type for MCP tools".to_owned()),
                fields: content_fields,
            },
        ),
    );

    let mut tool_fields: Vec<(String, ObjectField)> = Vec::new();
    tool_fields.push(
        (
            "content".to_owned(),
            object_field(
                "The text output of the tool",
                crate::ndc::NdcType::Array { element_type: Box::new(create_named_type("Content")) },
            ),
        ),
    );
    tool_fields.push(
        (
            "structured_content".to_owned(),
            object_field(
                "The structured output of the tool. This is a JSON string.",
                crate::ndc::NdcType::Nullable {
                    underlying_type: Box::new(create_named_type("String")),
                },
            ),
        ),
    );
    out.push(
        (
            "ToolOutput".to_owned(),
            ObjectType {
                description: Some("Output type for MCP tools".to_owned()),
                fields: tool_fields,
            },
        ),
    );

    proof {
        assert(out.deep_view()[0].1.fields =~= spec_resource_output_type().fields);
        assert(out.deep_view()[0].1 =~= spec_resource_output_type());
        assert(out.deep_view()[1].1.fields =~= spec_content_type().fields);
        assert(out.deep_view()[1].1 =~= spec_content_type());
        assert(out.deep_view()[2].1.fields =~= spec_tool_output_type().fields);
        assert(out.deep_view()[2].1 =~= spec_tool_output_type());
        assert(out.deep_view() =~= spec_object_types());
    }
    out
}

/// Builds one scalar type from its representation.
pub fn create_scalar_type(representation: ScalarRepresentation) -> (r: ScalarType)
    ensures
        r == (ScalarType { representation }),
{
    ScalarType { representation }
}

/// Emits the fixed scalar catalog.
pub fn create_scalar_types() -> (r: Vec<(String, ScalarType)>)
    ensures
        r.deep_view() == spec_scalar_types(),
{
    let mut out: Vec<(String, ScalarType)> = Vec::new();
    out.push(("String".to_owned(), create_scalar_type(ScalarRepresentation::StringRep)));
    out.push(("Boolean".to_owned(), create_scalar_type(ScalarRepresentation::BooleanRep)));
    out.push(("Int".to_owned(), create_scalar_type(ScalarRepresentation::Int32Rep)));
    out.push(("Float".to_owned(), create_scalar_type(ScalarRepresentation::Float64Rep)));
    out.push(("Json".to_owned(), create_scalar_type(ScalarRepresentation::JsonRep)));
    proof {
        assert(out.deep_view() =~= spec_scalar_types());
    }
    out
}

/// Synthesizes the whole virtual schema from the connector state: the
/// entries of every backend in state order, plus the fixed object and
/// scalar catalogs.  The schema is a pure function of the state.
pub fn generate_schema_from_state(state: &ConnectorState) -> (r: SchemaResponse)
    ensures
        r.deep_view() == spec_schema(state.deep_view()),
{
    let ghost clients = state.deep_view();
    let mut collections: Vec<CollectionInfo> = Vec::new();
    let mut functions: Vec<FunctionInfo> = Vec::new();
    let mut procedures: Vec<ProcedureInfo> = Vec::new();
    let mut i: usize = 0;
    while i < state.clients.len()
        invariant
            i <= state.clients.len(),
            clients == state.deep_view(),
            collections.deep_view() == spec_state_collections(clients.take(i as int)),
            functions.deep_view() == spec_state_functions(clients.take(i as int)),
            procedures.deep_view() == spec_state_procedures(clients.take(i as int)),
        decreases state.clients.len() - i,
    {
        let entry = &state.clients[i];
        let mut entry_collections = map_resources_to_collections(&entry.0, &entry.1.resources);
        let mut entry_functions = map_tools_to_functions(&entry.0, &entry.1.tools);
        let mut entry_procedures = map_tools_to_procedures(&entry.0, &entry.1.tools);
        let ghost prev_collections = collections.deep_view();
        let ghost prev_functions = functions.deep_view();
        let ghost prev_procedures = procedures.deep_view();
        let ghost step_collections = entry_collections.deep_view();
        let ghost step_functions = entry_functions.deep_view();
        let ghost step_procedures = entry_procedures.deep_view();
        collections.append(&mut entry_collections);
        functions.append(&mut entry_functions);
        procedures.append(&mut entry_procedures);
        proof {
            assert(clients.take(i + 1).drop_last() =~= clients.take(i as int));
            assert(clients.take(i + 1).last() == clients[i as int]);
            assert(collections.deep_view() =~= prev_collections + step_collections);
            assert(functions.deep_view() =~= prev_functions + step_functions);
            assert(procedures.deep_view() =~= prev_procedures + step_procedures);
        }
        i = i + 1;
    }
    let object_types = create_object_types();
    let scalar_types = create_scalar_types();
    proof {
        assert(clients.take(state.clients.len() as int) =~= clients);
    }
    SchemaResponse { collections, functions, procedures, object_types, scalar_types }
}


/// The identifier shape the configuration convention guarantees for a
/// local identifier: non-empty and free of the separator.
pub open spec fn wf_local_name(n: Seq<char>) -> bool {
    n.len() > 0 && !contains_sep(n)
}

/// The backend identifiers of a state are of the convention's shape and
/// pairwise distinct.
pub open spec fn wf_backend_names(clients: Seq<(Seq<char>, McpClientV)>) -> bool {
    &&& forall|i: int| 0 <= i < clients.len() ==> wf_name_part((#[trigger] clients[i]).0)
    &&& forall|i: int, j: int|
        0 <= i < j < clients.len() ==> (#[trigger] clients[i]).0 != (#[trigger] clients[j]).0
}

/// The resource identifiers of one catalog are of the convention's shape
/// and pairwise distinct.
pub open spec fn wf_resource_names(rs: Seq<ResourceV>) -> bool {
    &&& forall|k: int| 0 <= k < rs.len() ==> wf_local_name((#[trigger] rs[k]).name)
    &&& forall|k1: int, k2: int|
        0 <= k1 < k2 < rs.len() ==> (#[trigger] rs[k1]).name != (#[trigger] rs[k2]).name
}

/// The tool identifiers of one catalog are of the convention's shape and
/// pairwise distinct.
pub open spec fn wf_tool_names(ts: Seq<ToolV>) -> bool {
    &&& forall|k: int| 0 <= k < ts.len() ==> wf_local_name((#[trigger] ts[k]).name)
    &&& forall|k1: int, k2: int|
        0 <= k1 < k2 < ts.len() ==> (#[trigger] ts[k1]).name != (#[trigger] ts[k2]).name
}

/// Every identifier of the state is of the convention's shape, backend
/// identifiers are pairwise distinct, and each catalog's identifiers are
/// pairwise distinct — what the configuration and the catalog indexing
/// guarantee.
pub open spec fn wf_state_names(clients: Seq<(Seq<char>, McpClientV)>) -> bool {
    &&& wf_backend_names(clients)
    &&& forall|i: int|
        0 <= i < clients.len() ==> wf_resource_names((#[trigger] clients[i]).1.resources)
    &&& forall|i: int| 0 <= i < clients.len() ==> wf_tool_names((#[trigger] clients[i]).1.tools)
}

/// The collection at `m` comes from resource `k` of backend `i`.
spec fn collection_source(
    clients: Seq<(Seq<char>, McpClientV)>,
    c: CollectionInfoV,
    i: int,
    k: int,
) -> bool {
    0 <= i < clients.len() && 0 <= k < clients[i].1.resources.len() && c == spec_collection_of(
        clients[i].0,
        clients[i].1.resources[k],
    )
}

proof fn lemma_state_collections_membership(clients: Seq<(Seq<char>, McpClientV)>, m: int)
    requires
        0 <= m < spec_state_collections(clients).len(),
    ensures
        exists|i: int, k: int| collection_source(clients, spec_state_collections(clients)[m], i, k),
    decreases clients.len(),
{
    if clients.len() > 0 {
        let cs = spec_state_collections(clients);
        let rest = clients.drop_last();
        let prefix = spec_state_collections(rest);
        let server = clients.last().0;
        let rs = clients.last().1.resources;
        let block = spec_collections_of(server, rs);
        if m < prefix.len() {
            lemma_state_collections_membership(rest, m);
            let (i, k): (int, int) = choose|i: int, k: int|
                collection_source(rest, prefix[m], i, k);
            assert(rest[i] == clients[i]);
            assert(cs[m] == prefix[m]);
            assert(collection_source(clients, cs[m], i, k));
        } else {
            let k = m - prefix.len();
            assert(cs[m] == block[k]);
            assert(block[k] == spec_collection_of(server, rs[k]));
            assert(collection_source(clients, cs[m], clients.len() - 1, k));
        }
    }
}

/// Names of a sequence of collection entries are pairwise distinct.
pub open spec fn collection_names_distinct(cs: Seq<CollectionInfoV>) -> bool {
    forall|m1: int, m2: int|
        0 <= m1 < m2 < cs.len() ==> (#[trigger] cs[m1]).name != (#[trigger] cs[m2]).name
}

/// The naming scheme is collision-free across the whole schema: with
/// backend identifiers and per-backend resource identifiers of the
/// convention's shape and pairwise distinct, every collection of the
/// synthesized schema carries a distinct qualified name.
pub proof fn lemma_collection_names_unique(clients: Seq<(Seq<char>, McpClientV)>)
    requires
        wf_state_names(clients),
    ensures
        collection_names_distinct(spec_state_collections(clients)),
    decreases clients.len(),
{
    if clients.len() > 0 {
        let rest = clients.drop_last();
        assert(wf_state_names(rest)) by {
            assert(forall|i: int| 0 <= i < rest.len() ==> rest[i] == clients[i]);
        }
        lemma_collection_names_unique(rest);
        let cs = spec_state_collections(clients);
        let prefix = spec_state_collections(rest);
        let server = clients.last().0;
        let rs = clients.last().1.resources;
        let block = spec_collections_of(server, rs);
        assert(wf_name_part(server));
        assert(wf_resource_names(rs));
        assert forall|m1: int, m2: int|
            0 <= m1 < m2 < cs.len() implies cs[m1].name != cs[m2].name by {
            if m2 < prefix.len() {
                assert(cs[m1] == prefix[m1]);
                assert(cs[m2] == prefix[m2]);
            } else if m1 >= prefix.len() {
                let k1 = m1 - prefix.len();
                let k2 = m2 - prefix.len();
                assert(cs[m1] == spec_collection_of(server, rs[k1]));
                assert(cs[m2] == spec_collection_of(server, rs[k2]));
                if cs[m1].name == cs[m2].name {
                    lemma_compose_injective(server, rs[k1].name, server, rs[k2].name);
                }
            } else {
                lemma_state_collections_membership(rest, m1);
                let (i, k): (int, int) = choose|i: int, k: int|
                    collection_source(rest, prefix[m1], i, k);
                let k2 = m2 - prefix.len();
                assert(cs[m1] == prefix[m1]);
                assert(rest[i] == clients[i]);
                assert(cs[m1].name == spec_compose(clients[i].0, clients[i].1.resources[k].name));
                assert(cs[m2] == spec_collection_of(server, rs[k2]));
                if cs[m1].name == cs[m2].name {
                    lemma_compose_injective(
                        clients[i].0,
                        clients[i].1.resources[k].name,
                        server,
                        rs[k2].name,
                    );
                    assert(clients[i].0 == clients[clients.len() - 1].0);
                    assert(false);
                }
            }
        }
    }
}


/// The function at some position comes from read-only tool `k` of the
/// listed tools.
spec fn function_tool_source(server: Seq<char>, ts: Seq<ToolV>, f: FunctionInfoV, k: int) -> bool {
    0 <= k < ts.len() && spec_is_read_only(ts[k]) && f == spec_function_of(server, ts[k])
}

proof fn lemma_functions_of_membership(server: Seq<char>, ts: Seq<ToolV>, m: int)
    requires
        0 <= m < spec_functions_of(server, ts).len(),
    ensures
        exists|k: int| function_tool_source(server, ts, spec_functions_of(server, ts)[m], k),
    decreases ts.len(),
{
    if ts.len() > 0 {
        let fs = spec_functions_of(server, ts);
        let prefix = spec_functions_of(server, ts.drop_last());
        if m < prefix.len() {
            lemma_functions_of_membership(server, ts.drop_last(), m);
            let k = choose|k: int| function_tool_source(server, ts.drop_last(), prefix[m], k);
            assert(ts.drop_last()[k] == ts[k]);
            assert(function_tool_source(server, ts, fs[m], k));
        } else {
            assert(spec_is_read_only(ts.last()));
            assert(fs[m] == spec_function_of(server, ts.last()));
            assert(function_tool_source(server, ts, fs[m], ts.len() - 1));
        }
    }
}

/// Names of a sequence of function entries are pairwise distinct.
pub open spec fn function_names_distinct(fs: Seq<FunctionInfoV>) -> bool {
    forall|m1: int, m2: int|
        0 <= m1 < m2 < fs.len() ==> (#[trigger] fs[m1]).name != (#[trigger] fs[m2]).name
}

proof fn lemma_functions_of_unique(server: Seq<char>, ts: Seq<ToolV>)
    requires
        wf_name_part(server),
        wf_tool_names(ts),
    ensures
        function_names_distinct(spec_functions_of(server, ts)),
    decreases ts.len(),
{
    if ts.len() > 0 {
        let rest = ts.drop_last();
        assert(wf_tool_names(rest)) by {
            assert(forall|k: int| 0 <= k < rest.len() ==> rest[k] == ts[k]);
        }
        lemma_functions_of_unique(server, rest);
        let fs = spec_functions_of(server, ts);
        let prefix = spec_functions_of(server, rest);
        assert forall|m1: int, m2: int|
            0 <= m1 < m2 < fs.len() implies fs[m1].name != fs[m2].name by {
            if m2 < prefix.len() {
                assert(fs[m1] == prefix[m1]);
                assert(fs[m2] == prefix[m2]);
            } else {
                assert(spec_is_read_only(ts.last()));
                assert(fs[m2] == spec_function_of(server, ts.last()));
                lemma_functions_of_membership(server, rest, m1);
                let k = choose|k: int| function_tool_source(server, rest, prefix[m1], k);
                assert(rest[k] == ts[k]);
                assert(fs[m1] == prefix[m1]);
                assert(fs[m1].name == spec_compose(server, ts[k].name));
                if fs[m1].name == fs[m2].name {
                    lemma_compose_injective(server, ts[k].name, server, ts.last().name);
                    assert(ts[k].name == ts[ts.len() - 1].name);
                    assert(false);
                }
            }
        }
    }
}

/// The function at `m` comes from read-only tool `k` of backend `i`.
spec fn function_source(
    clients: Seq<(Seq<char>, McpClientV)>,
    f: FunctionInfoV,
    i: int,
    k: int,
) -> bool {
    0 <= i < clients.len() && function_tool_source(clients[i].0, clients[i].1.tools, f, k)
}

proof fn lemma_state_functions_membership(clients: Seq<(Seq<char>, McpClientV)>, m: int)
    requires
        0 <= m < spec_state_functions(clients).len(),
    ensures
        exists|i: int, k: int| function_source(clients, spec_state_functions(clients)[m], i, k),
    decreases clients.len(),
{
    if clients.len() > 0 {
        let fs = spec_state_functions(clients);
        let rest = clients.drop_last();
        let prefix = spec_state_functions(rest);
        if m < prefix.len() {
            lemma_state_functions_membership(rest, m);
            let (i, k): (int, int) = choose|i: int, k: int|
                function_source(rest, prefix[m], i, k);
            assert(rest[i] == clients[i]);
            assert(fs[m] == prefix[m]);
            assert(function_source(clients, fs[m], i, k));
        } else {
            let server = clients.last().0;
            let ts = clients.last().1.tools;
            let idx = m - prefix.len();
            let entry = spec_functions_of(server, ts)[idx];
            lemma_functions_of_membership(server, ts, idx);
            let k = choose|k: int| function_tool_source(server, ts, entry, k);
            assert(fs[m] == entry);
            assert(function_source(clients, fs[m], clients.len() - 1, k));
        }
    }
}

/// The naming scheme is collision-free on the query side too: with
/// identifiers of the convention's shape, every function of the
/// synthesized schema carries a distinct qualified name.
pub proof fn lemma_function_names_unique(clients: Seq<(Seq<char>, McpClientV)>)
    requires
        wf_state_names(clients),
    ensures
        function_names_distinct(spec_state_functions(clients)),
    decreases clients.len(),
{
    if clients.len() > 0 {
        let rest = clients.drop_last();
        assert(wf_state_names(rest)) by {
            assert(forall|i: int| 0 <= i < rest.len() ==> rest[i] == clients[i]);
        }
        lemma_function_names_unique(rest);
        let fs = spec_state_functions(clients);
        let prefix = spec_state_functions(rest);
        let server = clients.last().0;
        let ts = clients.last().1.tools;
        let block = spec_functions_of(server, ts);
        assert(wf_name_part(server));
        assert(wf_tool_names(ts));
        lemma_functions_of_unique(server, ts);
        assert forall|m1: int, m2: int|
            0 <= m1 < m2 < fs.len() implies fs[m1].name != fs[m2].name by {
            if m2 < prefix.len() {
                assert(fs[m1] == prefix[m1]);
                assert(fs[m2] == prefix[m2]);
            } else if m1 >= prefix.len() {
                assert(fs[m1] == block[m1 - prefix.len()]);
                assert(fs[m2] == block[m2 - prefix.len()]);
            } else {
                lemma_state_functions_membership(rest, m1);
                let (i, k): (int, int) = choose|i: int, k: int|
                    function_source(rest, prefix[m1], i, k);
                let idx2 = m2 - prefix.len();
                let entry2 = block[idx2];
                lemma_functions_of_membership(server, ts, idx2);
                let k2 = choose|k2: int| function_tool_source(server, ts, entry2, k2);
                assert(fs[m1] == prefix[m1]);
                assert(fs[m2] == entry2);
                assert(rest[i] == clients[i]);
                assert(fs[m1].name == spec_compose(clients[i].0, clients[i].1.tools[k].name));
                assert(fs[m2].name == spec_compose(server, ts[k2].name));
                if fs[m1].name == fs[m2].name {
                    lemma_compose_injective(
                        clients[i].0,
                        clients[i].1.tools[k].name,
                        server,
                        ts[k2].name,
                    );
                    assert(clients[i].0 == clients[clients.len() - 1].0);
                    assert(false);
                }
            }
        }
    }
}


/// The procedure at some position comes from mutating tool `k` of the
/// listed tools.
spec fn procedure_tool_source(
    server: Seq<char>,
    ts: Seq<ToolV>,
    p: ProcedureInfoV,
    k: int,
) -> bool {
    0 <= k < ts.len() && !spec_is_read_only(ts[k]) && p == spec_procedure_of(server, ts[k])
}

proof fn lemma_procedures_of_membership(server: Seq<char>, ts: Seq<ToolV>, m: int)
    requires
        0 <= m < spec_procedures_of(server, ts).len(),
    ensures
        exists|k: int| procedure_tool_source(server, ts, spec_procedures_of(server, ts)[m], k),
    decreases ts.len(),
{
    if ts.len() > 0 {
        let ps = spec_procedures_of(server, ts);
        let prefix = spec_procedures_of(server, ts.drop_last());
        if m < prefix.len() {
            lemma_procedures_of_membership(server, ts.drop_last(), m);
            let k = choose|k: int| procedure_tool_source(server, ts.drop_last(), prefix[m], k);
            assert(ts.drop_last()[k] == ts[k]);
            assert(procedure_tool_source(server, ts, ps[m], k));
        } else {
            assert(!spec_is_read_only(ts.last()));
            assert(ps[m] == spec_procedure_of(server, ts.last()));
            assert(procedure_tool_source(server, ts, ps[m], ts.len() - 1));
        }
    }
}

/// Names of a sequence of procedure entries are pairwise distinct.
pub open spec fn procedure_names_distinct(ps: Seq<ProcedureInfoV>) -> bool {
    forall|m1: int, m2: int|
        0 <= m1 < m2 < ps.len() ==> (#[trigger] ps[m1]).name != (#[trigger] ps[m2]).name
}

proof fn lemma_procedures_of_unique(server: Seq<char>, ts: Seq<ToolV>)
    requires
        wf_name_part(server),
        wf_tool_names(ts),
    ensures
        procedure_names_distinct(spec_procedures_of(server, ts)),
    decreases ts.len(),
{
    if ts.len() > 0 {
        let rest = ts.drop_last();
        assert(wf_tool_names(rest)) by {
            assert(forall|k: int| 0 <= k < rest.len() ==> rest[k] == ts[k]);
        }
        lemma_procedures_of_unique(server, rest);
        let ps = spec_procedures_of(server, ts);
        let prefix = spec_procedures_of(server, rest);
        assert forall|m1: int, m2: int|
            0 <= m1 < m2 < ps.len() implies ps[m1].name != ps[m2].name by {
            if m2 < prefix.len() {
                assert(ps[m1] == prefix[m1]);
                assert(ps[m2] == prefix[m2]);
            } else {
                assert(!spec_is_read_only(ts.last()));
                assert(ps[m2] == spec_procedure_of(server, ts.last()));
                lemma_procedures_of_membership(server, rest, m1);
                let k = choose|k: int| procedure_tool_source(server, rest, prefix[m1], k);
                assert(rest[k] == ts[k]);
                assert(ps[m1] == prefix[m1]);
                assert(ps[m1].name == spec_compose(server, ts[k].name));
                if ps[m1].name == ps[m2].name {
                    lemma_compose_injective(server, ts[k].name, server, ts.last().name);
                    assert(ts[k].name == ts[ts.len() - 1].name);
                    assert(false);
                }
            }
        }
    }
}

/// The procedure at `m` comes from mutating tool `k` of backend `i`.
spec fn procedure_source(
    clients: Seq<(Seq<char>, McpClientV)>,
    p: ProcedureInfoV,
    i: int,
    k: int,
) -> bool {
    0 <= i < clients.len() && procedure_tool_source(clients[i].0, clients[i].1.tools, p, k)
}

proof fn lemma_state_procedures_membership(clients: Seq<(Seq<char>, McpClientV)>, m: int)
    requires
        0 <= m < spec_state_procedures(clients).len(),
    ensures
        exists|i: int, k: int| procedure_source(clients, spec_state_procedures(clients)[m], i, k),
    decreases clients.len(),
{
    if clients.len() > 0 {
        let ps = spec_state_procedures(clients);
        let rest = clients.drop_last();
        let prefix = spec_state_procedures(rest);
        if m < prefix.len() {
            lemma_state_procedures_membership(rest, m);
            let (i, k): (int, int) = choose|i: int, k: int|
                procedure_source(rest, prefix[m], i, k);
            assert(rest[i] == clients[i]);
            assert(ps[m] == prefix[m]);
            assert(procedure_source(clients, ps[m], i, k));
        } else {
            let server = clients.last().0;
            let ts = clients.last().1.tools;
            let idx = m - prefix.len();
            let entry = spec_procedures_of(server, ts)[idx];
            lemma_procedures_of_membership(server, ts, idx);
            let k = choose|k: int| procedure_tool_source(server, ts, entry, k);
            assert(ps[m] == entry);
            assert(procedure_source(clients, ps[m], clients.len() - 1, k));
        }
    }
}

/// The naming scheme is collision-free on the mutation side as well: with
/// identifiers of the convention's shape, every procedure of the
/// synthesized schema carries a distinct qualified name.
pub proof fn lemma_procedure_names_unique(clients: Seq<(Seq<char>, McpClientV)>)
    requires
        wf_state_names(clients),
    ensures
        procedure_names_distinct(spec_state_procedures(clients)),
    decreases clients.len(),
{
    if clients.len() > 0 {
        let rest = clients.drop_last();
        assert(wf_state_names(rest)) by {
            assert(forall|i: int| 0 <= i < rest.len() ==> rest[i] == clients[i]);
        }
        lemma_procedure_names_unique(rest);
        let ps = spec_state_procedures(clients);
        let prefix = spec_state_procedures(rest);
        let server = clients.last().0;
        let ts = clients.last().1.tools;
        let block = spec_procedures_of(server, ts);
        assert(wf_name_part(server));
        assert(wf_tool_names(ts));
        lemma_procedures_of_unique(server, ts);
        assert forall|m1: int, m2: int|
            0 <= m1 < m2 < ps.len() implies ps[m1].name != ps[m2].name by {
            if m2 < prefix.len() {
                assert(ps[m1] == prefix[m1]);
                assert(ps[m2] == prefix[m2]);
            } else if m1 >= prefix.len() {
                assert(ps[m1] == block[m1 - prefix.len()]);
                assert(ps[m2] == block[m2 - prefix.len()]);
            } else {
                lemma_state_procedures_membership(rest, m1);
                let (i, k): (int, int) = choose|i: int, k: int|
                    procedure_source(rest, prefix[m1], i, k);
                let idx2 = m2 - prefix.len();
                let entry2 = block[idx2];
                lemma_procedures_of_membership(server, ts, idx2);
                let k2 = choose|k2: int| procedure_tool_source(server, ts, entry2, k2);
                assert(ps[m1] == prefix[m1]);
                assert(ps[m2] == entry2);
                assert(rest[i] == clients[i]);
                assert(ps[m1].name == spec_compose(clients[i].0, clients[i].1.tools[k].name));
                assert(ps[m2].name == spec_compose(server, ts[k2].name));
                if ps[m1].name == ps[m2].name {
                    lemma_compose_injective(
                        clients[i].0,
                        clients[i].1.tools[k].name,
                        server,
                        ts[k2].name,
                    );
                    assert(clients[i].0 == clients[clients.len() - 1].0);
                    assert(false);
                }
            }
        }
    }
}

/// Synthesis is idempotent for an unchanged set of capability catalogs:
/// the schema is a pure function of the state, so two synthesis runs over
/// the same state yield the same entries — the same qualified names and
/// the same type assignments — and the same fixed catalogs.
pub proof fn lemma_synthesis_deterministic(
    state: ConnectorState,
    r1: SchemaResponse,
    r2: SchemaResponse,
)
    requires
        r1.deep_view() == spec_schema(state.deep_view()),
        r2.deep_view() == spec_schema(state.deep_view()),
    ensures
        r1.deep_view() == r2.deep_view(),
{
}

/// Splitting a state at any point splits its collection entries.
proof fn lemma_state_collections_concat(
    a: Seq<(Seq<char>, McpClientV)>,
    b: Seq<(Seq<char>, McpClientV)>,
)
    ensures
        spec_state_collections(a + b) == spec_state_collections(a) + spec_state_collections(b),
    decreases b.len(),
{
    if b.len() == 0 {
        assert(a + b =~= a);
        assert(spec_state_collections(a) + spec_state_collections(b) =~= spec_state_collections(
            a,
        ));
    } else {
        lemma_state_collections_concat(a, b.drop_last());
        assert((a + b).drop_last() =~= a + b.drop_last());
        assert((a + b).last() == b.last());
        assert(spec_state_collections(a) + spec_state_collections(b.drop_last())
            + spec_collections_of(b.last().0, b.last().1.resources) =~= spec_state_collections(a)
            + spec_state_collections(b));
    }
}

/// Splitting a state at any point splits its function entries.
proof fn lemma_state_functions_concat(
    a: Seq<(Seq<char>, McpClientV)>,
    b: Seq<(Seq<char>, McpClientV)>,
)
    ensures
        spec_state_functions(a + b) == spec_state_functions(a) + spec_state_functions(b),
    decreases b.len(),
{
    if b.len() == 0 {
        assert(a + b =~= a);
        assert(spec_state_functions(a) + spec_state_functions(b) =~= spec_state_functions(a));
    } else {
        lemma_state_functions_concat(a, b.drop_last());
        assert((a + b).drop_last() =~= a + b.drop_last());
        assert((a + b).last() == b.last());
        assert(spec_state_functions(a) + spec_state_functions(b.drop_last()) + spec_functions_of(
            b.last().0,
            b.last().1.tools,
        ) =~= spec_state_functions(a) + spec_state_functions(b));
    }
}

/// Splitting a state at any point splits its procedure entries.
proof fn lemma_state_procedures_concat(
    a: Seq<(Seq<char>, McpClientV)>,
    b: Seq<(Seq<char>, McpClientV)>,
)
    ensures
        spec_state_procedures(a + b) == spec_state_procedures(a) + spec_state_procedures(b),
    decreases b.len(),
{
    if b.len() == 0 {
        assert(a + b =~= a);
        assert(spec_state_procedures(a) + spec_state_procedures(b) =~= spec_state_procedures(a));
    } else {
        lemma_state_procedures_concat(a, b.drop_last());
        assert((a + b).drop_last() =~= a + b.drop_last());
        assert((a + b).last() == b.last());
        assert(spec_state_procedures(a) + spec_state_procedures(b.drop_last())
            + spec_procedures_of(b.last().0, b.last().1.tools) =~= spec_state_procedures(a)
            + spec_state_procedures(b));
    }
}

/// A backend contributing zero resources and zero tools contributes zero
/// entries to the merged schema: synthesis over a state holding such a
/// backend equals synthesis over the state without it, so the remaining
/// backends come through unchanged (and synthesis, a total function,
/// still succeeds for them).
pub proof fn lemma_empty_backend_adds_nothing(
    pre: Seq<(Seq<char>, McpClientV)>,
    name: Seq<char>,
    client: McpClientV,
    post: Seq<(Seq<char>, McpClientV)>,
)
    requires
        client.resources.len() == 0,
        client.tools.len() == 0,
    ensures
        spec_schema(pre + seq![(name, client)] + post) == spec_schema(pre + post),
{
    let single = seq![(name, client)];
    let empty_clients = Seq::<(Seq<char>, McpClientV)>::empty();
    assert(single.len() == 1);
    assert(single.last() == (name, client));
    assert(single.drop_last() =~= empty_clients);
    assert(spec_collections_of(name, client.resources) =~= Seq::<CollectionInfoV>::empty());
    assert(spec_state_collections(empty_clients) =~= Seq::<CollectionInfoV>::empty());
    assert(spec_state_collections(single) =~= Seq::<CollectionInfoV>::empty());
    assert(spec_functions_of(name, client.tools) =~= Seq::<FunctionInfoV>::empty());
    assert(spec_state_functions(empty_clients) =~= Seq::<FunctionInfoV>::empty());
    assert(spec_state_functions(single) =~= Seq::<FunctionInfoV>::empty());
    assert(spec_procedures_of(name, client.tools) =~= Seq::<ProcedureInfoV>::empty());
    assert(spec_state_procedures(empty_clients) =~= Seq::<ProcedureInfoV>::empty());
    assert(spec_state_procedures(single) =~= Seq::<ProcedureInfoV>::empty());
    lemma_state_collections_concat(pre, single);
    lemma_state_collections_concat(pre + single, post);
    lemma_state_collections_concat(pre, post);
    assert(spec_state_collections(pre + single + post) =~= spec_state_collections(pre + post));
    lemma_state_functions_concat(pre, single);
    lemma_state_functions_concat(pre + single, post);
    lemma_state_functions_concat(pre, post);
    assert(spec_state_functions(pre + single + post) =~= spec_state_functions(pre + post));
    lemma_state_procedures_concat(pre, single);
    lemma_state_procedures_concat(pre + single, post);
    lemma_state_procedures_concat(pre, post);
    assert(spec_state_procedures(pre + single + post) =~= spec_state_procedures(pre + post));
    assert(spec_schema(pre + single + post) =~= spec_schema(pre + post));
}

} // verus!
