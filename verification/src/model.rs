//! The object model that a translation request consumes: one container
//! (a struct or an enum) with its fields, variants, generic lifetime
//! parameters and tagging configuration. All names arrive fully resolved
//! (renames already applied); the translator only reads these values.

use vstd::prelude::*;

verus! {

/// The primitive scalar kinds of the object model. Every numeric width and
/// signedness collapses to `Number`; see `is_numeric_name` for the named
/// spellings that do the same.
pub enum Prim {
    Number,
    Str,
    Boolean,
}

/// A reference to a type, as it appears in a field or a variant payload.
///
/// `Named` carries any path-based type that is not one of the structural
/// forms: its last path segment and its angle-bracketed type arguments.
/// `Opaque` stands for every construct the translator cannot classify
/// (function types, inference placeholders, macro-produced types); it
/// renders as the target's universal top type.
pub enum TypeRef {
    Primitive(Prim),
    /// Slices, fixed-size arrays and raw pointers: an element type with an
    /// array suffix.
    Array(Box<TypeRef>),
    /// A fixed-length heterogeneous tuple.
    Tuple(Vec<TypeRef>),
    /// The uninhabited type.
    Never,
    /// Anything unrecognized: renders as the universal top type.
    Opaque,
    /// A trait-object or impl-trait bound list; lifetime bounds are already
    /// discarded, only the bound names remain.
    TraitUnion(Vec<String>),
    /// A path type: last segment identifier and its type arguments.
    Named(String, Vec<TypeRef>),
}

/// A struct field or a named variant field, with its serialized name
/// already resolved.
pub struct Field {
    pub name: String,
    pub ty: TypeRef,
}

/// The shape of one enum variant.
pub enum VariantStyle {
    Unit,
    Newtype(Field),
    Tuple(Vec<Field>),
    Struct(Vec<Field>),
}

/// One enum variant, with its serialized name already resolved.
pub struct Variant {
    pub name: String,
    pub style: VariantStyle,
}

/// The shape of a struct container.
pub enum StructShape {
    Unit,
    Newtype(Field),
    Tuple(Vec<Field>),
    Named(Vec<Field>),
}

/// How an enum variant's identity is encoded alongside its payload.
///
/// `Fallback` is the absence of an explicit configuration: it behaves as
/// internal tagging with the default tag field name `"kind"`.
pub enum TagStrategy {
    Internal { tag: String },
    Adjacent { tag: String, content: String },
    Fallback,
}

/// A container's data: either a struct shape or an ordered list of enum
/// variants.
pub enum Shape {
    Struct(StructShape),
    Enum(Vec<Variant>),
}

/// The container being translated. Generic type parameters are deliberately
/// unsupported; only lifetime parameters are tracked, and they never
/// influence the expression text (they erase to wildcards when the
/// container's own type is re-emitted).
pub struct Container {
    pub name: String,
    pub lifetimes: Vec<String>,
    pub shape: Shape,
    pub tag: TagStrategy,
}

/// The one fatal failure of a translation: under internal tagging, a
/// struct-style variant has a field whose name equals the tag field name.
/// The error names the tag, the enclosing container and the offending
/// variant.
#[derive(Debug)]
pub struct ConfigError {
    pub tag: String,
    pub container: String,
    pub variant: String,
}

impl ConfigError {
    /// The build-time-fatal message, naming the tag field, the enclosing
    /// container and the offending variant.
    pub fn message(&self) -> (r: String)
        ensures
            r@ == "tag \""@ + self.tag@ + "\" clashes with field in enum variant \""@
                + self.container@ + "::"@ + self.variant@ + "\""@,
    {
        let mut r = String::from_str("tag \"");
        r.append(self.tag.as_str());
        r.append("\" clashes with field in enum variant \"");
        r.append(self.container.as_str());
        r.append("::");
        r.append(self.variant.as_str());
        r.append("\"");
        r
    }
}

} // verus!
