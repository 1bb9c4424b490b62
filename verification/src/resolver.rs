//! The type resolver: the host type expression of a C type, in its native
//! (fixed-width, interop) form or in its logical (host numeric) form, and
//! the descriptors of functions and callbacks made of such expressions.

use crate::ast::{text_of, Argument, Entity, EntityKind, Scalar, Shape, Type};
use crate::text::join;
use vstd::hash_map::StringHashMap;
use vstd::prelude::*;
use vstd::string::StringExecFns;

verus! {

/// The native representation of a primitive scalar.
pub open spec fn native_name(scalar: Scalar) -> Seq<char> {
    match scalar {
        Scalar::Void => "Void"@,
        Scalar::Bool => "Uint8"@,
        Scalar::SChar => "Int8"@,
        Scalar::CharS => "Int8"@,
        Scalar::UChar => "Uint8"@,
        Scalar::Short => "Int16"@,
        Scalar::UShort => "Uint16"@,
        Scalar::Int => "Int32"@,
        Scalar::UInt => "Uint32"@,
        Scalar::Long => "Int64"@,
        Scalar::ULong => "Uint64"@,
        Scalar::Float => "Float"@,
        Scalar::Double => "Double"@,
    }
}

/// The logical representation of a primitive scalar: one integer type for
/// every integer width, and a floating-point type for each of the two
/// precisions.
pub open spec fn logical_name(scalar: Scalar) -> Seq<char> {
    match scalar {
        Scalar::Void => "void"@,
        Scalar::Float => "float"@,
        Scalar::Double => "double"@,
        _ => "int"@,
    }
}

/// The annotation that gives a struct field its native type, and the empty
/// text for a field whose type is no primitive scalar.
pub open spec fn annotation(scalar: Option<Scalar>) -> Seq<char> {
    match scalar {
        Some(scalar) => "@"@ + native_name(scalar) + "()"@,
        None => Seq::empty(),
    }
}

/// The logical type of a struct field, and the empty text for a field whose
/// type is no primitive scalar.
pub open spec fn field_type(scalar: Option<Scalar>) -> Seq<char> {
    match scalar {
        Some(scalar) => logical_name(scalar),
        None => Seq::empty(),
    }
}

/// The type names by their source names, as texts.
pub open spec fn name_table(typenames: Map<Seq<char>, String>) -> Map<Seq<char>, Seq<char>> {
    typenames.map_values(|xname: String| xname@)
}

/// The function type expression with the result `res` and the arguments
/// `args`.
pub open spec fn call_form(res: Seq<char>, args: Seq<char>) -> Seq<char> {
    res + " Function("@ + args + ")"@
}

/// The host type expression of each of the types `tys`.
pub open spec fn resolve_each(
    names: Map<Seq<char>, Seq<char>>,
    tys: Seq<Type>,
    native: bool,
) -> Seq<Seq<char>>
    decreases tys, 1int,
{
    Seq::new(
        tys.len(),
        |i: int|
            if 0 <= i < tys.len() {
                resolve(names, tys[i], native)
            } else {
                Seq::empty()
            },
    )
}

/// The host type expression of the type `ty`, native or logical.
///
/// A primitive scalar goes by the tables. A pointer wraps the native
/// expression of what it points to. A record goes by the name that it was
/// translated under, and by its own name where it was not translated yet. A
/// function prototype is a native function of native types, whatever was
/// asked for, with `Void` for a result type that it does not give. Any
/// other kind gives a placeholder that shows the kind's tag.
pub open spec fn resolve(names: Map<Seq<char>, Seq<char>>, ty: Type, native: bool) -> Seq<char>
    decreases ty, 0int,
{
    match ty.shape {
        Shape::Scalar(scalar) => if native {
            native_name(scalar)
        } else {
            logical_name(scalar)
        },
        Shape::Pointer(pointee) => "Pointer<"@ + resolve(names, *pointee, true) + ">"@,
        Shape::Record(name) => if names.contains_key(name@) {
            names[name@]
        } else {
            name@
        },
        Shape::Function(res, args) => "NativeFunction<"@ + call_form(
            match res {
                Some(res) => resolve(names, *res, true),
                None => "Void"@,
            },
            join(resolve_each(names, args@, true), ", "@),
        ) + ">"@,
        Shape::Unsupported(tag) => "<unsupported_type_kind:"@ + tag@ + ">"@,
    }
}

/// The host type expressions of the types `tys`, separated by commas.
pub open spec fn resolve_all(names: Map<Seq<char>, Seq<char>>, tys: Seq<Type>, native: bool) -> Seq<
    char,
> {
    join(resolve_each(names, tys, native), ", "@)
}

/// The host expression of one argument: its type, and its name behind a
/// space where it has one.
pub open spec fn resolve_arg(names: Map<Seq<char>, Seq<char>>, arg: Argument, native: bool) -> Seq<
    char,
> {
    match arg.name {
        Some(name) => resolve(names, arg.ty, native) + " "@ + name@,
        None => resolve(names, arg.ty, native),
    }
}

/// The host expressions of the arguments `args`, separated by commas.
pub open spec fn resolve_args(
    names: Map<Seq<char>, Seq<char>>,
    args: Seq<Argument>,
    native: bool,
) -> Seq<char> {
    join(Seq::new(args.len(), |i: int| resolve_arg(names, args[i], native)), ", "@)
}

/// A function or callback descriptor, as a mathematical value.
pub struct Signature {
    /// The C symbol of a function.
    pub name: Option<Seq<char>>,
    /// The documentation comment.
    pub cmt: Option<Seq<char>>,
    /// The function type in native types.
    pub cffi: Seq<char>,
    /// The function type in logical types.
    pub dart: Seq<char>,
}

/// The host type expression of the result type `res` of a function, and
/// the host's void where there is none.
pub open spec fn resolve_result(
    names: Map<Seq<char>, Seq<char>>,
    res: Option<Box<Type>>,
    native: bool,
) -> Seq<char> {
    match res {
        Some(res) => resolve(names, *res, native),
        None => if native {
            "Void"@
        } else {
            "void"@
        },
    }
}

/// The descriptor of the function type `ty`. A type that is no function
/// prototype gives the descriptor of a function without result or arguments.
pub open spec fn type_signature(names: Map<Seq<char>, Seq<char>>, ty: Type) -> Signature {
    match ty.shape {
        Shape::Function(res, args) => Signature {
            name: None,
            cmt: None,
            cffi: call_form(resolve_result(names, res, true), resolve_all(names, args@, true)),
            dart: call_form(resolve_result(names, res, false), resolve_all(names, args@, false)),
        },
        _ => Signature {
            name: None,
            cmt: None,
            cffi: call_form("Void"@, Seq::empty()),
            dart: call_form("void"@, Seq::empty()),
        },
    }
}

/// The descriptor of the function that `entity` declares. A declaration
/// that is no function gives the descriptor of a function without result or
/// arguments.
pub open spec fn entity_signature(names: Map<Seq<char>, Seq<char>>, entity: Entity) -> Signature {
    match entity.kind {
        EntityKind::Function(res, args) => Signature {
            name: text_of(entity.name),
            cmt: text_of(entity.comment),
            cffi: call_form(resolve(names, res, true), resolve_args(names, args@, true)),
            dart: call_form(resolve(names, res, false), resolve_args(names, args@, false)),
        },
        _ => Signature {
            name: text_of(entity.name),
            cmt: text_of(entity.comment),
            cffi: call_form("Void"@, Seq::empty()),
            dart: call_form("void"@, Seq::empty()),
        },
    }
}

/// The native representation of a primitive scalar.
pub fn cffi_type(scalar: Scalar) -> (name: &'static str)
    ensures
        name@ == native_name(scalar),
{
    match scalar {
        Scalar::Void => "Void",
        Scalar::Bool => "Uint8",
        Scalar::SChar => "Int8",
        Scalar::CharS => "Int8",
        Scalar::UChar => "Uint8",
        Scalar::Short => "Int16",
        Scalar::UShort => "Uint16",
        Scalar::Int => "Int32",
        Scalar::UInt => "Uint32",
        Scalar::Long => "Int64",
        Scalar::ULong => "Uint64",
        Scalar::Float => "Float",
        Scalar::Double => "Double",
    }
}

/// The logical representation of a primitive scalar.
pub fn dart_type(scalar: Scalar) -> (name: &'static str)
    ensures
        name@ == logical_name(scalar),
{
    match scalar {
        Scalar::Void => "void",
        Scalar::Float => "float",
        Scalar::Double => "double",
        _ => "int",
    }
}

/// The native-type annotation of a struct field.
pub fn type_annotation(scalar: Option<Scalar>) -> (text: String)
    ensures
        text@ == annotation(scalar),
{
    match scalar {
        Some(scalar) => {
            let mut text = String::from_str("@");
            text.append(cffi_type(scalar));
            text.append("()");
            text
        },
        None => String::new(),
    }
}

/// The logical type of a struct field.
pub fn native_type(scalar: Option<Scalar>) -> (name: &'static str)
    ensures
        name@ == field_type(scalar),
{
    match scalar {
        Some(scalar) => dart_type(scalar),
        None => {
            proof {
                reveal_strlit("");
            }
            assert(""@ =~= Seq::<char>::empty());
            ""
        },
    }
}

/// The function type expression with the result `res` and the arguments
/// `args`.
fn function_form(res: &str, args: &str) -> (text: String)
    ensures
        text@ == call_form(res@, args@),
{
    let mut text = String::from_str(res);
    text.append(" Function(");
    text.append(args);
    text.append(")");
    text
}

/// A function or callback descriptor.
#[derive(Debug, Clone)]
pub struct FuncDef {
    /// The C symbol of a function.
    pub name: Option<String>,
    /// The documentation comment.
    pub cmt: Option<String>,
    /// The function type in native types.
    pub cffi: String,
    /// The function type in logical types.
    pub dart: String,
}

impl View for FuncDef {
    type V = Signature;

    open spec fn view(&self) -> Signature {
        Signature {
            name: text_of(self.name),
            cmt: text_of(self.cmt),
            cffi: self.cffi@,
            dart: self.dart@,
        }
    }
}

impl FuncDef {
    /// The descriptor of the function that `entity` declares.
    pub fn from_entity(typenames: &StringHashMap<String>, entity: &Entity) -> (def: FuncDef)
        ensures
            def@ == entity_signature(name_table(typenames@), *entity),
    {
        proof {
            reveal_strlit("");
        }
        assert(""@ =~= Seq::<char>::empty());
        let (cffi, dart) = match &entity.kind {
            EntityKind::Function(res, args) => {
                let cffi_res = translate_type(typenames, res, true);
                let dart_res = translate_type(typenames, res, false);
                let cffi_args = translate_args(typenames, args, true);
                let dart_args = translate_args(typenames, args, false);
                (
                    function_form(cffi_res.as_str(), cffi_args.as_str()),
                    function_form(dart_res.as_str(), dart_args.as_str()),
                )
            },
            _ => (function_form("Void", ""), function_form("void", "")),
        };
        FuncDef { name: entity.name.clone(), cmt: entity.comment.clone(), cffi, dart }
    }

    /// The descriptor of the function type `type_`.
    pub fn from_type(typenames: &StringHashMap<String>, type_: &Type) -> (def: FuncDef)
        ensures
            def@ == type_signature(name_table(typenames@), *type_),
        decreases type_, 0int,
    {
        proof {
            reveal_strlit("");
        }
        assert(""@ =~= Seq::<char>::empty());
        let (cffi, dart) = match &type_.shape {
            Shape::Function(res, args) => {
                let (cffi_res, dart_res) = match res {
                    Some(res) => (
                        translate_type(typenames, res, true),
                        translate_type(typenames, res, false),
                    ),
                    None => (String::from_str("Void"), String::from_str("void")),
                };
                let cffi_args = translate_types(typenames, args, true);
                let dart_args = translate_types(typenames, args, false);
                (
                    function_form(cffi_res.as_str(), cffi_args.as_str()),
                    function_form(dart_res.as_str(), dart_args.as_str()),
                )
            },
            _ => (function_form("Void", ""), function_form("void", "")),
        };
        FuncDef { name: None, cmt: None, cffi, dart }
    }
}

/// The host type expression of the type `type_`: native where `ffi` holds,
/// logical where it does not.
pub fn translate_type(typenames: &StringHashMap<String>, type_: &Type, ffi: bool) -> (text: String)
    ensures
        text@ == resolve(name_table(typenames@), *type_, ffi),
    decreases type_, 1int,
{
    match &type_.shape {
        Shape::Scalar(scalar) => {
            if ffi {
                String::from_str(cffi_type(*scalar))
            } else {
                String::from_str(dart_type(*scalar))
            }
        },
        Shape::Pointer(pointee) => {
            let inner = translate_type(typenames, pointee, true);
            let mut text = String::from_str("Pointer<");
            text.append(inner.as_str());
            text.append(">");
            text
        },
        Shape::Record(name) => {
            match typenames.get(name.as_str()) {
                Some(xname) => xname.clone(),
                None => name.clone(),
            }
        },
        Shape::Function(_, _) => {
            let cb = FuncDef::from_type(typenames, type_);
            let mut text = String::from_str("NativeFunction<");
            text.append(cb.cffi.as_str());
            text.append(">");
            text
        },
        Shape::Unsupported(tag) => {
            let mut text = String::from_str("<unsupported_type_kind:");
            text.append(tag.as_str());
            text.append(">");
            text
        },
    }
}

/// The host type expressions of the types `types`, separated by commas.
pub fn translate_types(typenames: &StringHashMap<String>, types: &Vec<Type>, ffi: bool) -> (text:
    String)
    ensures
        text@ == resolve_all(name_table(typenames@), types@, ffi),
    decreases types, 0int,
{
    let ghost parts = resolve_each(name_table(typenames@), types@, ffi);
    let mut text = String::new();
    let mut i: usize = 0;
    assert(parts.take(0).len() == 0);
    while i < types.len()
        invariant
            i <= types.len(),
            parts == resolve_each(name_table(typenames@), types@, ffi),
            text@ == join(parts.take(i as int), ", "@),
        decreases types.len() - i,
    {
        proof {
            let upto = parts.take(i + 1);
            assert(upto.drop_last() == parts.take(i as int));
            assert(upto.last() == parts[i as int]);
        }
        let part = translate_type(typenames, &types[i], ffi);
        if i > 0 {
            text.append(", ");
        }
        text.append(part.as_str());
        i += 1;
    }
    assert(parts.take(types.len() as int) == parts);
    text
}

/// The host expressions of the arguments `args`, separated by commas.
pub fn translate_args(typenames: &StringHashMap<String>, args: &Vec<Argument>, ffi: bool) -> (text:
    String)
    ensures
        text@ == resolve_args(name_table(typenames@), args@, ffi),
{
    let ghost names = name_table(typenames@);
    let ghost parts = Seq::new(args@.len(), |k: int| resolve_arg(names, args@[k], ffi));
    let mut text = String::new();
    let mut i: usize = 0;
    assert(parts.take(0).len() == 0);
    while i < args.len()
        invariant
            i <= args.len(),
            names == name_table(typenames@),
            parts == Seq::new(args@.len(), |k: int| resolve_arg(names, args@[k], ffi)),
            text@ == join(parts.take(i as int), ", "@),
        decreases args.len() - i,
    {
        proof {
            let upto = parts.take(i + 1);
            assert(upto.drop_last() == parts.take(i as int));
            assert(upto.last() == parts[i as int]);
        }
        let arg = &args[i];
        let mut part = translate_type(typenames, &arg.ty, ffi);
        match &arg.name {
            Some(name) => {
                part.append(" ");
                part.append(name.as_str());
            },
            None => {},
        }
        if i > 0 {
            text.append(", ");
        }
        text.append(part.as_str());
        i += 1;
    }
    assert(parts.take(args.len() as int) == parts);
    text
}

} // verus!
