//! The declarations of a parsed C header, as far as the translation reads
//! them: plain values that a parser's syntax tree is converted to.

use vstd::prelude::*;

verus! {

/// A primitive scalar type of C.
#[derive(Debug, Clone, Copy, PartialEq, Eq, Structural)]
pub enum Scalar {
    Void,
    Bool,
    SChar,
    CharS,
    UChar,
    Short,
    UShort,
    Int,
    UInt,
    Long,
    ULong,
    Float,
    Double,
}

/// The canonical form of a type: what it is once every typedef is resolved.
#[derive(Debug)]
pub enum Shape {
    /// A primitive scalar.
    Scalar(Scalar),
    /// A pointer, with the type it points to.
    Pointer(Box<Type>),
    /// A struct passed by value, with the name it is declared under.
    Record(String),
    /// A function prototype, with its result type, where it gives one, and
    /// its argument types.
    Function(Option<Box<Type>>, Vec<Type>),
    /// Any other kind, with its tag.
    Unsupported(String),
}

/// A reference to a C type.
#[derive(Debug)]
pub struct Type {
    /// The canonical form of the type.
    pub shape: Shape,
    /// The declaration that the type names as written: that of a struct, an
    /// enum or a typedef. A type written as a pointer names none.
    pub declaration: Option<Box<Entity>>,
}

/// One constant of an enum.
#[derive(Debug)]
pub struct EnumConstant {
    pub name: String,
    pub value: i64,
}

/// One field of a struct.
#[derive(Debug)]
pub struct Field {
    pub name: String,
    /// The documentation comment of the field.
    pub comment: Option<String>,
    /// The canonical type of the field where that is a primitive scalar.
    pub scalar: Option<Scalar>,
}

/// One argument of a function.
#[derive(Debug)]
pub struct Argument {
    pub name: Option<String>,
    pub ty: Type,
}

/// What a typedef stands for, in canonical form.
#[derive(Debug)]
pub enum Aliased {
    /// A struct, with its fields.
    Record(Vec<Field>),
    /// A pointer to a function, with the type of the function.
    FunctionPointer(Type),
    /// Anything else.
    Other,
}

/// The kind of a declaration, with what the kind carries.
#[derive(Debug)]
pub enum EntityKind {
    /// An enum, with its constants.
    Enum(Vec<EnumConstant>),
    /// A struct, with its fields.
    Struct(Vec<Field>),
    /// A typedef, with what it stands for.
    Typedef(Aliased),
    /// A function, with its result type and its arguments.
    Function(Type, Vec<Argument>),
    /// Any other kind.
    Other,
}

/// One declaration of the header.
#[derive(Debug)]
pub struct Entity {
    pub name: Option<String>,
    /// The documentation comment of the declaration.
    pub comment: Option<String>,
    pub kind: EntityKind,
}

/// The text of an optional string.
pub open spec fn text_of(s: Option<String>) -> Option<Seq<char>> {
    match s {
        Some(s) => Some(s@),
        None => None,
    }
}

} // verus!
