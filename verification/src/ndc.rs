//! Model of the merged virtual schema handed to the calling framework:
//! the closed type algebra, the per-entry descriptors for collections,
//! functions and procedures, and the fixed object and scalar catalogs.

use vstd::prelude::*;

verus! {

/// A type in the closed target algebra: a named scalar or object type, an
/// array over an element type, or a nullable wrapper.
#[derive(Debug, PartialEq, Eq)]
pub enum NdcType {
    /// A named scalar or object type.
    Named { name: String },
    /// An array of elements of one type.
    Array { element_type: Box<NdcType> },
    /// A value of the underlying type, or null.
    Nullable { underlying_type: Box<NdcType> },
}

/// Mathematical value of an `NdcType`.
#[verifier::ext_equal]
pub enum NdcTypeV {
    Named { name: Seq<char> },
    Array { element_type: Box<NdcTypeV> },
    Nullable { underlying_type: Box<NdcTypeV> },
}

impl DeepView for NdcType {
    type V = NdcTypeV;

    open spec fn deep_view(&self) -> NdcTypeV {
        view_ndc_type(*self)
    }
}

/// The value of a target type, defined by structural recursion.
pub open spec fn view_ndc_type(t: NdcType) -> NdcTypeV
    decreases t,
{
    match t {
        NdcType::Named { name } => NdcTypeV::Named { name: name@ },
        NdcType::Array { element_type } => NdcTypeV::Array {
            element_type: Box::new(view_ndc_type(*element_type)),
        },
        NdcType::Nullable { underlying_type } => NdcTypeV::Nullable {
            underlying_type: Box::new(view_ndc_type(*underlying_type)),
        },
    }
}

/// One argument of a function or procedure entry: its translated type and
/// the description carried over from the schema node.
#[derive(Debug, PartialEq, Eq)]
pub struct ArgumentInfo {
    /// Optional human-readable description.
    pub description: Option<String>,
    /// The translated argument type.
    pub argument_type: NdcType,
}

/// Mathematical value of an `ArgumentInfo`.
#[verifier::ext_equal]
pub struct ArgumentInfoV {
    pub description: Option<Seq<char>>,
    pub argument_type: NdcTypeV,
}

impl DeepView for ArgumentInfo {
    type V = ArgumentInfoV;

    open spec fn deep_view(&self) -> ArgumentInfoV {
        ArgumentInfoV {
            description: self.description.deep_view(),
            argument_type: self.argument_type.deep_view(),
        }
    }
}

/// One collection entry of the virtual schema, synthesized from one
/// readable resource.  Resources take no arguments and are fetched whole.
#[derive(Debug, PartialEq, Eq)]
pub struct CollectionInfo {
    /// The qualified name of the collection.
    pub name: String,
    /// Description carried through from the resource.
    pub description: Option<String>,
    /// Arguments of the collection; always empty.
    pub arguments: Vec<(String, ArgumentInfo)>,
    /// Name of the object type of one row; always `ResourceOutput`.
    pub collection_type: String,
}

/// Mathematical value of a `CollectionInfo`.
#[verifier::ext_equal]
pub struct CollectionInfoV {
    pub name: Seq<char>,
    pub description: Option<Seq<char>>,
    pub arguments: Seq<(Seq<char>, ArgumentInfoV)>,
    pub collection_type: Seq<char>,
}

impl DeepView for CollectionInfo {
    type V = CollectionInfoV;

    open spec fn deep_view(&self) -> CollectionInfoV {
        CollectionInfoV {
            name: self.name@,
            description: self.description.deep_view(),
            arguments: self.arguments.deep_view(),
            collection_type: self.collection_type@,
        }
    }
}

/// One function entry of the virtual schema, synthesized from one
/// read-only tool.
#[derive(Debug, PartialEq, Eq)]
pub struct FunctionInfo {
    /// The qualified name of the function.
    pub name: String,
    /// Description carried through from the tool.
    pub description: Option<String>,
    /// The translated argument map, in property order.
    pub arguments: Vec<(String, ArgumentInfo)>,
    /// The result type; always the named type `ToolOutput`.
    pub result_type: NdcType,
}

/// Mathematical value of a `FunctionInfo`.
#[verifier::ext_equal]
pub struct FunctionInfoV {
    pub name: Seq<char>,
    pub description: Option<Seq<char>>,
    pub arguments: Seq<(Seq<char>, ArgumentInfoV)>,
    pub result_type: NdcTypeV,
}

impl DeepView for FunctionInfo {
    type V = FunctionInfoV;

    open spec fn deep_view(&self) -> FunctionInfoV {
        FunctionInfoV {
            name: self.name@,
            description: self.description.deep_view(),
            arguments: self.arguments.deep_view(),
            result_type: self.result_type.deep_view(),
        }
    }
}

/// One procedure entry of the virtual schema, synthesized from one
/// mutating tool.
#[derive(Debug, PartialEq, Eq)]
pub struct ProcedureInfo {
    /// The qualified name of the procedure.
    pub name: String,
    /// Description carried through from the tool.
    pub description: Option<String>,
    /// The translated argument map, in property order.
    pub arguments: Vec<(String, ArgumentInfo)>,
    /// The result type; always the named type `ToolOutput`.
    pub result_type: NdcType,
}

/// Mathematical value of a `ProcedureInfo`.
#[verifier::ext_equal]
pub struct ProcedureInfoV {
    pub name: Seq<char>,
    pub description: Option<Seq<char>>,
    pub arguments: Seq<(Seq<char>, ArgumentInfoV)>,
    pub result_type: NdcTypeV,
}

impl DeepView for ProcedureInfo {
    type V = ProcedureInfoV;

    open spec fn deep_view(&self) -> ProcedureInfoV {
        ProcedureInfoV {
            name: self.name@,
            description: self.description.deep_view(),
            arguments: self.arguments.deep_view(),
            result_type: self.result_type.deep_view(),
        }
    }
}

/// One field of a fixed object type.
#[derive(Debug, PartialEq, Eq)]
pub struct ObjectField {
    /// Description of the field.
    pub description: Option<String>,
    /// The field's type.
    pub field_type: NdcType,
}

/// Mathematical value of an `ObjectField`.
#[verifier::ext_equal]
pub struct ObjectFieldV {
    pub description: Option<Seq<char>>,
    pub field_type: NdcTypeV,
}

impl DeepView for ObjectField {
    type V = ObjectFieldV;

    open spec fn deep_view(&self) -> ObjectFieldV {
        ObjectFieldV {
            description: self.description.deep_view(),
            field_type: self.field_type.deep_view(),
        }
    }
}

/// One object type of the virtual schema: a description and named fields.
#[derive(Debug, PartialEq, Eq)]
pub struct ObjectType {
    /// Description of the object type.
    pub description: Option<String>,
    /// The fields, in declaration order.
    pub fields: Vec<(String, ObjectField)>,
}

/// Mathematical value of an `ObjectType`.
#[verifier::ext_equal]
pub struct ObjectTypeV {
    pub description: Option<Seq<char>>,
    pub fields: Seq<(Seq<char>, ObjectFieldV)>,
}

impl DeepView for ObjectType {
    type V = ObjectTypeV;

    open spec fn deep_view(&self) -> ObjectTypeV {
        ObjectTypeV {
            description: self.description.deep_view(),
            fields: self.fields.deep_view(),
        }
    }
}

/// How a scalar type of the virtual schema is represented.
#[derive(Clone, Copy, Debug, PartialEq, Eq, Structural)]
pub enum ScalarRepresentation {
    /// A character string.
    StringRep,
    /// A truth value.
    BooleanRep,
    /// A 32-bit integer.
    Int32Rep,
    /// A 64-bit floating-point number.
    Float64Rep,
    /// An arbitrary JSON value, the catch-all.
    JsonRep,
}

/// One scalar type of the virtual schema.  The engine attaches no
/// aggregate functions, comparison operators or extraction functions to
/// any scalar, so the representation is all a scalar type holds.
#[derive(Clone, Copy, Debug, PartialEq, Eq, Structural)]
pub struct ScalarType {
    /// The representation of the scalar.
    pub representation: ScalarRepresentation,
}

impl DeepView for ScalarType {
    type V = ScalarType;

    open spec fn deep_view(&self) -> ScalarType {
        *self
    }
}

/// The merged virtual schema over all configured backends.
#[derive(Debug, PartialEq, Eq)]
pub struct SchemaResponse {
    /// One collection per resource of every backend.
    pub collections: Vec<CollectionInfo>,
    /// One function per read-only tool of every backend.
    pub functions: Vec<FunctionInfo>,
    /// One procedure per mutating tool of every backend.
    pub procedures: Vec<ProcedureInfo>,
    /// The fixed object-type catalog, the same for every state.
    pub object_types: Vec<(String, ObjectType)>,
    /// The fixed scalar-type catalog, the same for every state.
    pub scalar_types: Vec<(String, ScalarType)>,
}

/// Mathematical value of a `SchemaResponse`.
#[verifier::ext_equal]
pub struct SchemaResponseV {
    pub collections: Seq<CollectionInfoV>,
    pub functions: Seq<FunctionInfoV>,
    pub procedures: Seq<ProcedureInfoV>,
    pub object_types: Seq<(Seq<char>, ObjectTypeV)>,
    pub scalar_types: Seq<(Seq<char>, ScalarType)>,
}

impl DeepView for SchemaResponse {
    type V = SchemaResponseV;

    open spec fn deep_view(&self) -> SchemaResponseV {
        SchemaResponseV {
            collections: self.collections.deep_view(),
            functions: self.functions.deep_view(),
            procedures: self.procedures.deep_view(),
            object_types: self.object_types.deep_view(),
            scalar_types: self.scalar_types.deep_view(),
        }
    }
}

} // verus!
