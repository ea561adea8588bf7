//! The type translator: from one node of the open, nested schema language
//! into the closed target type algebra.
//!
//! The translator is total.  A declared primitive kind maps one-to-one to
//! its target scalar; a declared array kind recurses into its single
//! declared item schema, falling back to an array of `String` when the
//! item schema is missing or ambiguous; every other shape — no declared
//! kind, an object kind, a null kind, several declared kinds at once —
//! collapses to the catch-all `Json`.  Each property of a tool's argument
//! schema additionally becomes nullable when the schema does not list it
//! as required.

use vstd::prelude::*;

use crate::input_schema::{
    InstanceKind, ItemsDecl, ItemsDeclV, KindsDecl, ObjectSchema, ObjectSchemaV, SchemaNode,
    SchemaNodeV,
};
use crate::ndc::{ArgumentInfo, ArgumentInfoV, NdcType, NdcTypeV};

verus! {

/// The named target type `name`.
pub open spec fn spec_named(name: Seq<char>) -> NdcTypeV {
    NdcTypeV::Named { name }
}

/// The catch-all target type.
pub open spec fn spec_json_type() -> NdcTypeV {
    spec_named("Json"@)
}

/// The target scalar for one declared primitive kind.  An object kind and
/// a null kind carry no usable structure and collapse to `Json`; the array
/// kind never reaches this map, but collapses to `Json` there too.
pub open spec fn spec_scalar_of(k: InstanceKind) -> NdcTypeV {
    match k {
        InstanceKind::Str => spec_named("String"@),
        InstanceKind::Number => spec_named("Float"@),
        InstanceKind::Integer => spec_named("Int"@),
        InstanceKind::Boolean => spec_named("Boolean"@),
        InstanceKind::Array => spec_json_type(),
        InstanceKind::Object => spec_json_type(),
        InstanceKind::Null => spec_json_type(),
    }
}

/// The target type of a node that declares the array kind: recurse into
/// the single declared item schema, or fall back to an array of `String`
/// when no single item schema is declared.
pub open spec fn spec_translate_array(n: SchemaNodeV) -> NdcTypeV
    decreases n, 0int,
{
    match n.items {
        ItemsDeclV::One(child) => NdcTypeV::Array {
            element_type: Box::new(spec_translate(*child)),
        },
        ItemsDeclV::Missing => NdcTypeV::Array { element_type: Box::new(spec_named("String"@)) },
        ItemsDeclV::Ambiguous => NdcTypeV::Array {
            element_type: Box::new(spec_named("String"@)),
        },
    }
}

/// The target type of one schema node.  Total: every node, however
/// malformed, has a defined target type.
pub open spec fn spec_translate(n: SchemaNodeV) -> NdcTypeV
    decreases n, 1int,
{
    match n.kinds {
        KindsDecl::Undeclared => spec_json_type(),
        KindsDecl::Several => spec_json_type(),
        KindsDecl::One(k) => match k {
            InstanceKind::Array => spec_translate_array(n),
            _ => spec_scalar_of(k),
        },
    }
}

/// Builds the named target type `name`.
pub fn create_named_type(name: &str) -> (r: NdcType)
    ensures
        r.deep_view() == spec_named(name@),
{
    NdcType::Named { name: name.to_owned() }
}

/// Maps one declared primitive kind to its target scalar.
pub fn map_instance_type_to_ndc(instance_type: &InstanceKind) -> (r: NdcType)
    ensures
        r.deep_view() == spec_scalar_of(*instance_type),
{
    match instance_type {
        InstanceKind::Str => create_named_type("String"),
        InstanceKind::Number => create_named_type("Float"),
        InstanceKind::Integer => create_named_type("Int"),
        InstanceKind::Boolean => create_named_type("Boolean"),
        InstanceKind::Array => create_named_type("Json"),
        InstanceKind::Object => create_named_type("Json"),
        InstanceKind::Null => create_named_type("Json"),
    }
}

/// Translates a node that declares the array kind, by examining its item
/// schema.
pub fn map_array_type(schema: &SchemaNode) -> (r: NdcType)
    ensures
        r.deep_view() == spec_translate_array(schema.deep_view()),
    decreases *schema, 0int,
{
    match &schema.items {
        ItemsDecl::One(child) => {
            let element_type = map_schema_to_ndc_type(child);
            NdcType::Array { element_type: Box::new(element_type) }
        },
        ItemsDecl::Missing => NdcType::Array {
            element_type: Box::new(create_named_type("String")),
        },
        ItemsDecl::Ambiguous => NdcType::Array {
            element_type: Box::new(create_named_type("String")),
        },
    }
}

/// Translates one schema node into the target algebra.  Total: no
/// precondition, a defined result for every input.
pub fn map_schema_to_ndc_type(schema: &SchemaNode) -> (r: NdcType)
    ensures
        r.deep_view() == spec_translate(schema.deep_view()),
    decreases *schema, 1int,
{
    match schema.kinds {
        KindsDecl::Undeclared => create_named_type("Json"),
        KindsDecl::Several => create_named_type("Json"),
        KindsDecl::One(k) => match k {
            InstanceKind::Array => map_array_type(schema),
            _ => map_instance_type_to_ndc(&k),
        },
    }
}

/// A malformed or empty schema node translates to `Json`: a node with no
/// declared kind, with several declared kinds at once, or with an object
/// or null kind.  Together with `spec_translate` being a total function
/// (and `map_schema_to_ndc_type` carrying no precondition), this is the
/// totality guarantee of the translator: it never fails, it answers
/// `Json` in the worst case.
pub proof fn lemma_translate_malformed(n: SchemaNodeV)
    ensures
        n.kinds is Undeclared ==> spec_translate(n) == spec_json_type(),
        n.kinds is Several ==> spec_translate(n) == spec_json_type(),
        n.kinds == KindsDecl::One(InstanceKind::Object) ==> spec_translate(n) == spec_json_type(),
        n.kinds == KindsDecl::One(InstanceKind::Null) ==> spec_translate(n) == spec_json_type(),
{
}

/// Membership of `name` in the required-property list.
fn required_contains(required: &Vec<String>, name: &String) -> (r: bool)
    ensures
        r == required.deep_view().contains(name@),
{
    let mut i: usize = 0;
    while i < required.len()
        invariant
            i <= required.len(),
            forall|j: int| 0 <= j < i ==> required.deep_view()[j] != name@,
        decreases required.len() - i,
    {
        if required[i].eq(name) {
            proof {
                assert(required.deep_view()[i as int] == name@);
            }
            return true;
        }
        i = i + 1;
    }
    false
}

pub(crate) fn clone_opt_string(o: &Option<String>) -> (r: Option<String>)
    ensures
        r.deep_view() == o.deep_view(),
{
    match o {
        Some(s) => Some(s.clone()),
        None => None,
    }
}

/// The argument entry one named property translates to: the property's
/// translated type, wrapped as nullable when the property is not
/// required, under the property's own description.
pub open spec fn spec_argument_of(
    p: (Seq<char>, SchemaNodeV),
    required: Seq<Seq<char>>,
) -> (Seq<char>, ArgumentInfoV) {
    let ty = spec_translate(p.1);
    (
        p.0,
        ArgumentInfoV {
            description: p.1.description,
            argument_type: if required.contains(p.0) {
                ty
            } else {
                NdcTypeV::Nullable { underlying_type: Box::new(ty) }
            },
        },
    )
}

/// The full translated argument map of one tool, in property order.
pub open spec fn spec_tool_arguments(s: ObjectSchemaV) -> Seq<(Seq<char>, ArgumentInfoV)> {
    s.properties.map_values(|p: (Seq<char>, SchemaNodeV)| spec_argument_of(p, s.required))
}

/// Translates a tool's whole argument schema: one argument per declared
/// property, in declaration order, each typed by the translator and
/// wrapped as nullable unless the schema lists the property as required.
pub fn tool_arguments_schema(input_schema: &ObjectSchema) -> (r: Vec<(String, ArgumentInfo)>)
    ensures
        r.deep_view() == spec_tool_arguments(input_schema.deep_view()),
{
    let ghost props = input_schema.deep_view().properties;
    let ghost req = input_schema.deep_view().required;
    let ghost f = |p: (Seq<char>, SchemaNodeV)| spec_argument_of(p, req);
    let mut out: Vec<(String, ArgumentInfo)> = Vec::new();
    let n = input_schema.properties.len();
    let mut i: usize = 0;
    while i < n
        invariant
            n == input_schema.properties.len(),
            i <= n,
            props == input_schema.deep_view().properties,
            req == input_schema.deep_view().required,
            f == (|p: (Seq<char>, SchemaNodeV)| spec_argument_of(p, req)),
            out.deep_view() == props.take(i as int).map_values(f),
        decreases n - i,
    {
        let prop = &input_schema.properties[i];
        let ty = map_schema_to_ndc_type(&prop.1);
        let required = required_contains(&input_schema.required, &prop.0);
        let argument_type = if required {
            ty
        } else {
            NdcType::Nullable { underlying_type: Box::new(ty) }
        };
        let description = clone_opt_string(&prop.1.description);
        out.push((prop.0.clone(), ArgumentInfo { description, argument_type }));
        proof {
            assert(props.take(i + 1 as int).map_values(f) =~= props.take(i as int).map_values(
                f,
            ).push(f(props[i as int])));
        }
        i = i + 1;
    }
    proof {
        assert(props.take(n as int) =~= props);
    }
    out
}

} // verus!
