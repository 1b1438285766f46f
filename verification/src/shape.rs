//! The type shape descriptor: the generation-time input model. A type is
//! either one unconditional shape (a struct) or a tagged union of named
//! alternatives, each alternative an ordered record, an ordered positional
//! shape, or a unit shape. Fields carry the raw directive tokens handed over
//! by the annotation-resolution collaborator.

use vstd::prelude::*;
use crate::directive::Directive;
use crate::directive::resolve_model;
use crate::directive::tokens_ok;

verus! {

/// One declared field: its label (meaningful only inside a record shape)
/// and its raw directive tokens, still unresolved.
pub struct FieldDesc {
    /// The field's name; ignored for positional fields.
    pub name: String,
    /// Raw directive tokens found on the field.
    pub tokens: Vec<String>,
}

/// The structural kind of one shape.
#[derive(Clone, Copy, PartialEq, Eq, Structural)]
pub enum ShapeKind {
    /// Ordered, named fields.
    Record,
    /// Ordered, unnamed fields.
    Positional,
    /// No fields at all; only the name is rendered.
    Unit,
}

/// One named shape: a struct, or one alternative of a tagged union.
pub struct Variant {
    /// The name printed in front of the shape's delimiters.
    pub name: String,
    /// Which delimiters and labels the shape uses.
    pub kind: ShapeKind,
    /// The declared fields, in declaration order.
    pub fields: Vec<FieldDesc>,
}

/// The full descriptor of a type handed to the generator.
pub enum TypeShape {
    /// A struct: one unconditional shape.
    Single(Variant),
    /// A tagged union: a closed, ordered set of named alternatives.
    Tagged(Vec<Variant>),
    /// A field-less memory block; the generator cannot classify it.
    Raw,
}

/// The directive a field resolves to (garbage tokens resolve too, but the
/// generator rejects the shape before such an answer is used).
pub open spec fn field_directive(f: FieldDesc) -> Directive {
    resolve_model(f.tokens@)
}

/// Every token of every field of the variant is recognized.
pub open spec fn variant_tokens_ok(v: Variant) -> bool {
    forall|i: int| 0 <= i < v.fields@.len() ==> tokens_ok(#[trigger] v.fields@[i].tokens@)
}

/// Every token anywhere in the shape is recognized.
pub open spec fn shape_tokens_ok(s: TypeShape) -> bool {
    match s {
        TypeShape::Single(v) => variant_tokens_ok(v),
        TypeShape::Tagged(vs) => forall|i: int|
            0 <= i < vs@.len() ==> variant_tokens_ok(#[trigger] vs@[i]),
        TypeShape::Raw => true,
    }
}

/// The generator classifies every shape but a raw block.
pub open spec fn shape_supported(s: TypeShape) -> bool {
    !(s is Raw)
}

} // verus!
