//! Model of the open, recursively-nested schema language in which a
//! backend declares the arguments of its tools.
//!
//! A tool's argument schema arrives as one node per property.  The type
//! translator reads three things of a node: which primitive kind or kinds
//! it declares (if any), which item schema an array node declares (if
//! exactly one), and the optional human-readable description.  The model
//! holds exactly those: a node whose kind list or item list had some other
//! shape is recorded as `Several` respectively `Ambiguous`, since nothing
//! of the logic looks past that.

use vstd::prelude::*;

verus! {

/// The primitive kind a schema node may declare.
#[derive(Clone, Copy, Debug, PartialEq, Eq, Structural)]
pub enum InstanceKind {
    /// A character-string value.
    Str,
    /// A floating-point number.
    Number,
    /// An integer.
    Integer,
    /// A truth value.
    Boolean,
    /// An array of items.
    Array,
    /// A nested object.
    Object,
    /// The null value.
    Null,
}

/// The kind declaration of one schema node.
#[derive(Clone, Copy, Debug, PartialEq, Eq, Structural)]
pub enum KindsDecl {
    /// The node declares no kind at all.
    Undeclared,
    /// The node declares exactly one kind.
    One(InstanceKind),
    /// The node declares two or more kinds at once.
    Several,
}

/// The item-schema declaration of an array node.
pub enum ItemsDecl {
    /// No item schema is declared.
    Missing,
    /// Exactly one item schema is declared.
    One(Box<SchemaNode>),
    /// A list of zero or two or more item schemas is declared; the
    /// translator never looks inside such a list.
    Ambiguous,
}

/// One node of a nested argument schema.
pub struct SchemaNode {
    /// The kind or kinds this node declares.
    pub kinds: KindsDecl,
    /// The item schema, read only when the node declares the array kind.
    pub items: ItemsDecl,
    /// Optional human-readable description, carried through to the
    /// argument it describes.
    pub description: Option<String>,
}

/// Mathematical value of an `ItemsDecl`.
#[verifier::ext_equal]
pub enum ItemsDeclV {
    Missing,
    One(Box<SchemaNodeV>),
    Ambiguous,
}

/// Mathematical value of a `SchemaNode`.
#[verifier::ext_equal]
pub struct SchemaNodeV {
    pub kinds: KindsDecl,
    pub items: ItemsDeclV,
    pub description: Option<Seq<char>>,
}

impl DeepView for SchemaNode {
    type V = SchemaNodeV;

    open spec fn deep_view(&self) -> SchemaNodeV {
        view_schema_node(*self)
    }
}

/// The value of a schema node, defined by structural recursion.
pub open spec fn view_schema_node(n: SchemaNode) -> SchemaNodeV
    decreases n,
{
    SchemaNodeV {
        kinds: n.kinds,
        items: match n.items {
            ItemsDecl::Missing => ItemsDeclV::Missing,
            ItemsDecl::One(child) => ItemsDeclV::One(Box::new(view_schema_node(*child))),
            ItemsDecl::Ambiguous => ItemsDeclV::Ambiguous,
        },
        description: match n.description {
            Some(d) => Some(d@),
            None => None,
        },
    }
}

/// The whole argument schema of one tool: its properties, each a named
/// schema node, and the set of property names the tool requires.
pub struct ObjectSchema {
    /// The declared properties, in declaration order.
    pub properties: Vec<(String, SchemaNode)>,
    /// The names of the required properties; every property not named
    /// here is optional.
    pub required: Vec<String>,
}

/// Mathematical value of an `ObjectSchema`.
#[verifier::ext_equal]
pub struct ObjectSchemaV {
    pub properties: Seq<(Seq<char>, SchemaNodeV)>,
    pub required: Seq<Seq<char>>,
}

impl DeepView for ObjectSchema {
    type V = ObjectSchemaV;

    open spec fn deep_view(&self) -> ObjectSchemaV {
        ObjectSchemaV {
            properties: self.properties.deep_view(),
            required: self.required.deep_view(),
        }
    }
}

impl ObjectSchema {
    /// The empty argument schema: no properties, nothing required.
    pub fn empty() -> (r: ObjectSchema)
        ensures
            r.deep_view().properties.len() == 0,
            r.deep_view().required.len() == 0,
    {
        ObjectSchema { properties: Vec::new(), required: Vec::new() }
    }
}

} // verus!
