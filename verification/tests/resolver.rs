use c4dart::ast::{Argument, Entity, EntityKind, Scalar, Shape, Type};
use c4dart::resolver::{
    cffi_type, dart_type, native_type, translate_args, translate_type, translate_types,
    type_annotation, FuncDef,
};
use vstd::hash_map::StringHashMap;

fn plain(shape: Shape) -> Type {
    Type { shape, declaration: None }
}

fn int32() -> Type {
    plain(Shape::Scalar(Scalar::Int))
}

#[test]
fn native_table() {
    assert_eq!(cffi_type(Scalar::Void), "Void");
    assert_eq!(cffi_type(Scalar::Bool), "Uint8");
    assert_eq!(cffi_type(Scalar::SChar), "Int8");
    assert_eq!(cffi_type(Scalar::CharS), "Int8");
    assert_eq!(cffi_type(Scalar::UChar), "Uint8");
    assert_eq!(cffi_type(Scalar::Short), "Int16");
    assert_eq!(cffi_type(Scalar::UShort), "Uint16");
    assert_eq!(cffi_type(Scalar::Int), "Int32");
    assert_eq!(cffi_type(Scalar::UInt), "Uint32");
    assert_eq!(cffi_type(Scalar::Long), "Int64");
    assert_eq!(cffi_type(Scalar::ULong), "Uint64");
    assert_eq!(cffi_type(Scalar::Float), "Float");
    assert_eq!(cffi_type(Scalar::Double), "Double");
}

#[test]
fn logical_table() {
    assert_eq!(dart_type(Scalar::Void), "void");
    assert_eq!(dart_type(Scalar::Bool), "int");
    assert_eq!(dart_type(Scalar::UChar), "int");
    assert_eq!(dart_type(Scalar::Short), "int");
    assert_eq!(dart_type(Scalar::ULong), "int");
    assert_eq!(dart_type(Scalar::Float), "float");
    assert_eq!(dart_type(Scalar::Double), "double");
    assert_ne!(dart_type(Scalar::Float), dart_type(Scalar::Double));
}

#[test]
fn field_annotation_and_type() {
    assert_eq!(type_annotation(Some(Scalar::Long)), "@Int64()");
    assert_eq!(type_annotation(None), "");
    assert_eq!(native_type(Some(Scalar::Long)), "int");
    assert_eq!(native_type(None), "");
}

#[test]
fn pointer_is_native_inside_whatever_was_asked_for() {
    let names = StringHashMap::new();
    let ty = plain(Shape::Pointer(Box::new(plain(Shape::Pointer(Box::new(int32()))))));
    assert_eq!(translate_type(&names, &ty, false), "Pointer<Pointer<Int32>>");
    assert_eq!(translate_type(&names, &ty, true), "Pointer<Pointer<Int32>>");
    assert_eq!(translate_type(&names, &int32(), false), "int");
}

#[test]
fn record_goes_by_its_translated_name() {
    let mut names = StringHashMap::new();
    let ty = plain(Shape::Record("my_point".to_string()));
    assert_eq!(translate_type(&names, &ty, true), "my_point");
    names.insert("my_point".to_string(), "Point".to_string());
    assert_eq!(translate_type(&names, &ty, true), "Point");
    assert_eq!(translate_type(&names, &ty, false), "Point");
}

#[test]
fn function_prototype_is_native_throughout() {
    let names = StringHashMap::new();
    let f = plain(Shape::Function(
        Some(Box::new(plain(Shape::Scalar(Scalar::Double)))),
        vec![int32(), plain(Shape::Scalar(Scalar::Float))],
    ));
    assert_eq!(translate_type(&names, &f, false), "NativeFunction<Double Function(Int32, Float)>");
    let p = plain(Shape::Pointer(Box::new(f)));
    assert_eq!(
        translate_type(&names, &p, false),
        "Pointer<NativeFunction<Double Function(Int32, Float)>>"
    );
}

#[test]
fn unsupported_kind_gives_a_tagged_placeholder() {
    let names = StringHashMap::new();
    let ty = plain(Shape::Unsupported("LongLong".to_string()));
    assert_eq!(translate_type(&names, &ty, true), "<unsupported_type_kind:LongLong>");
    assert_eq!(translate_type(&names, &ty, false), "<unsupported_type_kind:LongLong>");
}

#[test]
fn types_and_arguments_are_separated_by_commas() {
    let names = StringHashMap::new();
    assert_eq!(translate_types(&names, &Vec::new(), true), "");
    assert_eq!(translate_types(&names, &vec![int32()], true), "Int32");
    assert_eq!(
        translate_types(&names, &vec![int32(), plain(Shape::Scalar(Scalar::Bool)), int32()], false),
        "int, int, int"
    );
    let args = vec![
        Argument { name: Some("a".to_string()), ty: int32() },
        Argument { name: None, ty: plain(Shape::Scalar(Scalar::UChar)) },
    ];
    assert_eq!(translate_args(&names, &args, true), "Int32 a, Uint8");
    assert_eq!(translate_args(&names, &args, false), "int a, int");
}

#[test]
fn descriptor_of_add() {
    let names = StringHashMap::new();
    let add = Entity {
        name: Some("add".to_string()),
        comment: Some("/// Adds.".to_string()),
        kind: EntityKind::Function(
            int32(),
            vec![
                Argument { name: Some("a".to_string()), ty: int32() },
                Argument { name: Some("b".to_string()), ty: int32() },
            ],
        ),
    };
    let def = FuncDef::from_entity(&names, &add);
    assert_eq!(def.name.as_deref(), Some("add"));
    assert_eq!(def.cmt.as_deref(), Some("/// Adds."));
    assert_eq!(def.cffi, "Int32 Function(Int32 a, Int32 b)");
    assert_eq!(def.dart, "int Function(int a, int b)");
}

#[test]
fn descriptor_of_a_function_type() {
    let names = StringHashMap::new();
    let f = plain(Shape::Function(Some(Box::new(plain(Shape::Scalar(Scalar::Void)))), vec![int32()]));
    let def = FuncDef::from_type(&names, &f);
    assert_eq!(def.name, None);
    assert_eq!(def.cmt, None);
    assert_eq!(def.cffi, "Void Function(Int32)");
    assert_eq!(def.dart, "void Function(int)");
    let other = FuncDef::from_type(&names, &int32());
    assert_eq!(other.cffi, "Void Function()");
    assert_eq!(other.dart, "void Function()");
}

#[test]
fn descriptor_of_a_declaration_that_is_no_function() {
    let names = StringHashMap::new();
    let other = Entity { name: Some("x".to_string()), comment: None, kind: EntityKind::Other };
    let def = FuncDef::from_entity(&names, &other);
    assert_eq!(def.name.as_deref(), Some("x"));
    assert_eq!(def.cmt, None);
    assert_eq!(def.cffi, "Void Function()");
    assert_eq!(def.dart, "void Function()");
}

#[test]
fn prototype_without_a_result_type_returns_void() {
    let names = StringHashMap::new();
    let f = plain(Shape::Function(None, vec![plain(Shape::Scalar(Scalar::Float))]));
    let def = FuncDef::from_type(&names, &f);
    assert_eq!(def.cffi, "Void Function(Float)");
    assert_eq!(def.dart, "void Function(float)");
    assert_eq!(translate_type(&names, &f, false), "NativeFunction<Void Function(Float)>");
    let copy = def.clone();
    assert_eq!(copy.cffi, def.cffi);
    assert_eq!(copy.dart, def.dart);
}

#[test]
fn logical_float_and_double_are_distinct_in_a_signature() {
    let names = StringHashMap::new();
    let tys = vec![plain(Shape::Scalar(Scalar::Float)), plain(Shape::Scalar(Scalar::Double))];
    assert_eq!(translate_types(&names, &tys, false), "float, double");
    assert_eq!(translate_types(&names, &tys, true), "Float, Double");
    assert_eq!(native_type(Some(Scalar::Float)), "float");
    assert_eq!(native_type(Some(Scalar::Double)), "double");
}
