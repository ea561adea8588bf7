//! The request router: from an incoming qualified name to the backend and
//! operation it designates.
//!
//! A request walks four steps: parse the name, resolve the backend,
//! resolve the operation (resources before tools on the query path, tools
//! alone on the mutation path), then invoke and reshape.  Each step
//! short-circuits on the first failure, and each failure keeps its kind:
//! a name that does not parse is a bad request, a missing backend or
//! operation is not-found, and only a failure of the invocation itself —
//! which happens outside this module — is an internal error.

use vstd::prelude::*;

use crate::capability::{Resource, ResourceV, Tool, ToolV};
use crate::names::split;
use crate::names::spec_split;
use crate::state::{client_of, has_client, ConnectorState};

verus! {

/// Why a request could not be routed.
#[derive(Clone, Copy, Debug, PartialEq, Eq, Structural)]
pub enum RouteError {
    /// The qualified name does not split into two non-empty parts: a bad
    /// request, terminal, never retried.
    MalformedName,
    /// No backend carries the name's backend part: not-found, terminal.
    BackendNotFound,
    /// The backend exists but has no resource or tool under the name's
    /// local part: not-found, terminal.
    OperationNotFound,
}

/// Where a query request goes: to a resource fetch or to a tool call.
#[derive(Debug, PartialEq, Eq)]
pub enum QueryTarget {
    /// Fetch a resource whole, by its stored locator.
    Resource {
        /// The backend that owns the resource.
        backend: String,
        /// The resource's opaque locator.
        uri: String,
    },
    /// Invoke a tool.
    Tool {
        /// The backend that owns the tool.
        backend: String,
        /// The tool's identifier within its backend.
        tool: String,
    },
}

/// Where a mutation operation goes: always to a tool call.
#[derive(Debug, PartialEq, Eq)]
pub struct ProcedureTarget {
    /// The backend that owns the tool.
    pub backend: String,
    /// The tool's identifier within its backend.
    pub tool: String,
}

/// Some resource of `rs` carries the identifier `n`.
pub open spec fn has_resource(rs: Seq<ResourceV>, n: Seq<char>) -> bool {
    exists|i: int| 0 <= i < rs.len() && rs[i].name == n
}

/// `i` is the position of the first resource of `rs` carrying `n`.
pub open spec fn is_first_resource_index(rs: Seq<ResourceV>, n: Seq<char>, i: int) -> bool {
    0 <= i < rs.len() && rs[i].name == n && (forall|j: int|
        0 <= j < i ==> (#[trigger] rs[j]).name != n)
}

/// The position of the first resource of `rs` carrying `n`.
pub open spec fn first_resource_index(rs: Seq<ResourceV>, n: Seq<char>) -> int {
    choose|i: int| is_first_resource_index(rs, n, i)
}

/// The first resource of `rs` carrying `n`.
pub open spec fn resource_of(rs: Seq<ResourceV>, n: Seq<char>) -> ResourceV {
    rs[first_resource_index(rs, n)]
}

/// Some tool of `ts` carries the identifier `n`.
pub open spec fn has_tool(ts: Seq<ToolV>, n: Seq<char>) -> bool {
    exists|i: int| 0 <= i < ts.len() && ts[i].name == n
}

proof fn lemma_first_resource_index_unique(rs: Seq<ResourceV>, n: Seq<char>, i: int, j: int)
    requires
        is_first_resource_index(rs, n, i),
        is_first_resource_index(rs, n, j),
    ensures
        i == j,
{
}

/// Position of the first resource of `rs` named `name`, if any.
fn resource_position(rs: &Vec<Resource>, name: &String) -> (r: Option<usize>)
    ensures
        match r {
            Some(i) => is_first_resource_index(rs.deep_view(), name@, i as int),
            None => !has_resource(rs.deep_view(), name@),
        },
{
    let mut i: usize = 0;
    while i < rs.len()
        invariant
            i <= rs.len(),
            forall|j: int| 0 <= j < i ==> (#[trigger] rs.deep_view()[j]).name != name@,
        decreases rs.len() - i,
    {
        if rs[i].name.eq(name) {
            proof {
                assert(rs.deep_view()[i as int].name == name@);
            }
            return Some(i);
        }
        i = i + 1;
    }
    None
}

/// Position of the first tool of `ts` named `name`, if any.
fn tool_position(ts: &Vec<Tool>, name: &String) -> (r: Option<usize>)
    ensures
        match r {
            Some(i) => i < ts.len() && ts.deep_view()[i as int].name == name@,
            None => !has_tool(ts.deep_view(), name@),
        },
{
    let mut i: usize = 0;
    while i < ts.len()
        invariant
            i <= ts.len(),
            forall|j: int| 0 <= j < i ==> (#[trigger] ts.deep_view()[j]).name != name@,
        decreases ts.len() - i,
    {
        if ts[i].name.eq(name) {
            proof {
                assert(ts.deep_view()[i as int].name == name@);
            }
            return Some(i);
        }
        i = i + 1;
    }
    None
}

/// Resolves a query request: parses the qualified collection or function
/// name, resolves the backend, and resolves the local part first among
/// the backend's resources, then among its tools.  Succeeds exactly on a
/// well-formed name whose backend is connected and whose local part the
/// backend exposes; each failure names the first step that broke.
pub fn resolve_query_target(state: &ConnectorState, name: &str) -> (r: Result<
    QueryTarget,
    RouteError,
>)
    ensures
        match r {
            Ok(target) => match target {
                QueryTarget::Resource { backend, uri } => {
                    &&& spec_split(name@) matches Some(p)
                    &&& backend@ == p.0
                    &&& has_client(state.deep_view(), p.0)
                    &&& has_resource(client_of(state.deep_view(), p.0).resources, p.1)
                    &&& uri@ == resource_of(
                        client_of(state.deep_view(), p.0).resources,
                        p.1,
                    ).uri
                },
                QueryTarget::Tool { backend, tool } => {
                    &&& spec_split(name@) matches Some(p)
                    &&& backend@ == p.0
                    &&& has_client(state.deep_view(), p.0)
                    &&& !has_resource(client_of(state.deep_view(), p.0).resources, p.1)
                    &&& has_tool(client_of(state.deep_view(), p.0).tools, p.1)
                    &&& tool@ == p.1
                },
            },
            Err(e) => match e {
                RouteError::MalformedName => spec_split(name@) is None,
                RouteError::BackendNotFound => {
                    &&& spec_split(name@) matches Some(p)
                    &&& !has_client(state.deep_view(), p.0)
                },
                RouteError::OperationNotFound => {
                    &&& spec_split(name@) matches Some(p)
                    &&& has_client(state.deep_view(), p.0)
                    &&& !has_resource(client_of(state.deep_view(), p.0).resources, p.1)
                    &&& !has_tool(client_of(state.deep_view(), p.0).tools, p.1)
                },
            },
        },
{
    let (backend, local) = match split(name) {
        Err(_) => {
            return Err(RouteError::MalformedName);
        },
        Ok(parts) => parts,
    };
    let client = match state.find_client(&backend) {
        None => {
            return Err(RouteError::BackendNotFound);
        },
        Some(client) => client,
    };
    if let Some(ri) = resource_position(&client.resources, &local) {
        proof {
            lemma_first_resource_index_unique(
                client.deep_view().resources,
                local@,
                ri as int,
                first_resource_index(client.deep_view().resources, local@),
            );
        }
        return Ok(
            QueryTarget::Resource { backend, uri: client.resources[ri].uri.clone() },
        );
    }
    match tool_position(&client.tools, &local) {
        Some(_) => Ok(QueryTarget::Tool { backend, tool: local }),
        None => Err(RouteError::OperationNotFound),
    }
}

/// Resolves one mutation operation: parses the qualified procedure name,
/// resolves the backend, and requires the local part to be a tool of that
/// backend — resources are not reachable from the mutation path.
pub fn resolve_procedure_target(state: &ConnectorState, name: &str) -> (r: Result<
    ProcedureTarget,
    RouteError,
>)
    ensures
        match r {
            Ok(target) => {
                &&& spec_split(name@) matches Some(p)
                &&& target.backend@ == p.0
                &&& has_client(state.deep_view(), p.0)
                &&& has_tool(client_of(state.deep_view(), p.0).tools, p.1)
                &&& target.tool@ == p.1
            },
            Err(e) => match e {
                RouteError::MalformedName => spec_split(name@) is None,
                RouteError::BackendNotFound => {
                    &&& spec_split(name@) matches Some(p)
                    &&& !has_client(state.deep_view(), p.0)
                },
                RouteError::OperationNotFound => {
                    &&& spec_split(name@) matches Some(p)
                    &&& has_client(state.deep_view(), p.0)
                    &&& !has_tool(client_of(state.deep_view(), p.0).tools, p.1)
                },
            },
        },
{
    let (backend, local) = match split(name) {
        Err(_) => {
            return Err(RouteError::MalformedName);
        },
        Ok(parts) => parts,
    };
    let client = match state.find_client(&backend) {
        None => {
            return Err(RouteError::BackendNotFound);
        },
        Some(client) => client,
    };
    match tool_position(&client.tools, &local) {
        Some(_) => Ok(ProcedureTarget { backend, tool: local }),
        None => Err(RouteError::OperationNotFound),
    }
}

/// One argument of an incoming request: a literal value, or a reference
/// to a variable that this engine does not support.
pub enum Argument<V> {
    /// A concrete value.
    Literal {
        /// The value itself.
        value: V,
    },
    /// A reference to a named variable of the request.
    Variable {
        /// The variable's name.
        name: String,
    },
}

/// The literal-valued arguments of a query, in order; variable arguments
/// are dropped.
pub open spec fn spec_literal_arguments<V>(args: Seq<(String, Argument<V>)>) -> Seq<(String, V)>
    decreases args.len(),
{
    if args.len() == 0 {
        Seq::empty()
    } else {
        spec_literal_arguments(args.drop_last()) + match args.last().1 {
            Argument::Literal { value } => seq![(args.last().0, value)],
            Argument::Variable { .. } => Seq::empty(),
        }
    }
}

/// Collects the arguments of a query into a flat map: literal arguments
/// keep their values in order, variable arguments are silently dropped —
/// the engine declares variables unsupported, so dropping them mirrors
/// that absence rather than raising an error.
pub fn collect_query_arguments<V>(arguments: Vec<(String, Argument<V>)>) -> (r: Vec<(String, V)>)
    ensures
        r@ == spec_literal_arguments(arguments@),
{
    let ghost orig = arguments@;
    let mut arguments = arguments;
    let mut out: Vec<(String, V)> = Vec::new();
    let ghost i: int = 0;
    while arguments.len() > 0
        invariant
            0 <= i <= orig.len(),
            arguments@ =~= orig.skip(i),
            out@ == spec_literal_arguments(orig.take(i)),
        decreases arguments@.len(),
    {
        let (arg_name, argument) = arguments.remove(0);
        proof {
            assert((arg_name, argument) == orig[i]);
        }
        match argument {
            Argument::Literal { value } => {
                out.push((arg_name, value));
            },
            Argument::Variable { .. } => {},
        }
        proof {
            assert(orig.take(i + 1).drop_last() =~= orig.take(i));
            assert(orig.take(i + 1).last() == orig[i]);
            i = i + 1;
            assert(arguments@ =~= orig.skip(i));
        }
    }
    proof {
        assert(orig.take(i) =~= orig);
    }
    out
}

/// One content item of a tool's reply: either text-bearing or of some
/// other kind, each carrying its payload opaquely.
pub enum ContentItem<V> {
    /// A text-bearing item.
    Text {
        /// The item's payload.
        value: V,
    },
    /// An item of any other kind: an image, audio, an embedded resource.
    Other {
        /// The item's payload.
        value: V,
    },
}

/// The text-bearing items of a reply, in order.
pub open spec fn spec_text_contents<V>(items: Seq<ContentItem<V>>) -> Seq<ContentItem<V>>
    decreases items.len(),
{
    if items.len() == 0 {
        Seq::empty()
    } else {
        spec_text_contents(items.drop_last()) + match items.last() {
            ContentItem::Text { .. } => seq![items.last()],
            ContentItem::Other { .. } => Seq::empty(),
        }
    }
}

/// Filters a tool reply down to its text-bearing items, keeping their
/// order: the query path exposes only text content in its single row.
/// The mutation path does not use this filter — it wraps every item.
pub fn filter_text_contents<V>(items: Vec<ContentItem<V>>) -> (r: Vec<ContentItem<V>>)
    ensures
        r@ == spec_text_contents(items@),
{
    let ghost orig = items@;
    let mut items = items;
    let mut out: Vec<ContentItem<V>> = Vec::new();
    let ghost i: int = 0;
    while items.len() > 0
        invariant
            0 <= i <= orig.len(),
            items@ =~= orig.skip(i),
            out@ == spec_text_contents(orig.take(i)),
        decreases items@.len(),
    {
        let item = items.remove(0);
        proof {
            assert(item == orig[i]);
        }
        match item {
            ContentItem::Text { value } => {
                out.push(ContentItem::Text { value });
            },
            ContentItem::Other { .. } => {},
        }
        proof {
            assert(orig.take(i + 1).drop_last() =~= orig.take(i));
            assert(orig.take(i + 1).last() == orig[i]);
            i = i + 1;
            assert(items@ =~= orig.skip(i));
        }
    }
    proof {
        assert(orig.take(i) =~= orig);
    }
    out
}

} // verus!
