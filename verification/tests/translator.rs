use c4dart::ast::{
    Aliased, Argument, Entity, EntityKind, EnumConstant, Field, Scalar, Shape, Type,
};
use c4dart::coder::Coder;
use c4dart::names::NamePattern;
use c4dart::options::Options;
use c4dart::translator::{without_prefix, Translator};
use c4dart::{parser_arguments, translate};

fn options(class: &str, pattern: &str, template: &str) -> Options {
    Options {
        class_name: class.to_string(),
        include_paths: Vec::new(),
        detect_isystem: false,
        names_match: NamePattern::new(pattern).unwrap(),
        names_replace: template.to_string(),
    }
}

fn scalar(s: Scalar) -> Type {
    Type { shape: Shape::Scalar(s), declaration: None }
}

fn pointer(to: Type) -> Type {
    Type { shape: Shape::Pointer(Box::new(to)), declaration: None }
}

fn function_type(res: Type, args: Vec<Type>) -> Type {
    Type { shape: Shape::Function(Some(Box::new(res)), args), declaration: None }
}

fn arg(name: Option<&str>, ty: Type) -> Argument {
    Argument { name: name.map(|n| n.to_string()), ty }
}

fn function(name: &str, res: Type, args: Vec<Argument>) -> Entity {
    Entity { name: Some(name.to_string()), comment: None, kind: EntityKind::Function(res, args) }
}

fn field(name: &str, s: Option<Scalar>) -> Field {
    Field { name: name.to_string(), comment: None, scalar: s }
}

fn point_struct() -> Entity {
    Entity {
        name: Some("point".to_string()),
        comment: Some("/** A point. */".to_string()),
        kind: EntityKind::Struct(vec![
            field("x", Some(Scalar::Int)),
            field("y", Some(Scalar::Double)),
        ]),
    }
}

fn point_type() -> Type {
    Type { shape: Shape::Record("point".to_string()), declaration: Some(Box::new(point_struct())) }
}

fn color_enum() -> Entity {
    Entity {
        name: Some("COLOR".to_string()),
        comment: None,
        kind: EntityKind::Enum(vec![
            EnumConstant { name: "COLOR_RED".to_string(), value: 0 },
            EnumConstant { name: "COLOR_GREEN".to_string(), value: 1 },
        ]),
    }
}

fn run(options: Options, entities: &Vec<Entity>) -> String {
    let mut translator = Translator::new(options);
    translator.translate(entities);
    translator.coder().render()
}

const EMPTY_CLASS: &str = "/*Library class\n */\nclass Lib {\n    /*Callbacks\n     */\n    /*Functions\n     */\n    /*Constructor\n     */\n    Lib(\n        DynamicLibrary dylib\n    )\n    /*Init functions\n     */\n    {}\n}\n";

#[test]
fn without_prefix_strips_the_enum_name_and_one_underscore() {
    assert_eq!(without_prefix("COLOR_RED", "COLOR"), "RED");
}

#[test]
fn without_prefix_strips_every_underscore_behind_the_prefix() {
    assert_eq!(without_prefix("COLOR__RED", "COLOR"), "RED");
    assert_eq!(without_prefix("COLOR____", "COLOR"), "");
}

#[test]
fn without_prefix_finds_the_prefix_in_any_letter_case() {
    assert_eq!(without_prefix("COLOR_RED", "Color"), "RED");
    assert_eq!(without_prefix("COLOR__RED", "Color"), "RED");
    assert_eq!(without_prefix("color_Red", "COLOR"), "Red");
    assert_eq!(without_prefix("Z9_x", "z9"), "x");
}

#[test]
fn without_prefix_keeps_a_name_that_does_not_begin_with_the_prefix() {
    assert_eq!(without_prefix("COLOUR_RED", "Color"), "COLOUR_RED");
    assert_eq!(without_prefix("_RED", "COLOR"), "_RED");
    assert_eq!(without_prefix("COL", "COLOR"), "COL");
    assert_eq!(without_prefix("RED", ""), "RED");
    assert_eq!(without_prefix("__RED", ""), "RED");
}

#[test]
fn without_prefix_folds_ascii_letters_only() {
    assert_eq!(without_prefix("@A_x", "`a"), "@A_x");
    assert_eq!(without_prefix("[_x", "{"), "[_x");
    assert_eq!(without_prefix("\u{c9}TAT_x", "\u{e9}tat"), "\u{c9}TAT_x");
    assert_eq!(without_prefix("\u{e9}TAT_x", "\u{e9}tat"), "x");
}

#[test]
fn empty_header_gives_the_import_and_an_empty_wrapper() {
    let text = run(options("Lib", ".*", "$0"), &Vec::new());
    assert_eq!(text, format!("import 'dart:ffi';\n\n{}", EMPTY_CLASS));
}

#[test]
fn enum_is_emitted_with_stripped_member_names_and_values() {
    let text = run(options("Lib", ".*", "$0"), &vec![color_enum()]);
    assert_eq!(
        text,
        format!(
            "import 'dart:ffi';\n\nclass COLOR {{\n    static const RED = 0;\n    static const GREEN = 1;\n}}\n{}",
            EMPTY_CLASS
        )
    );
}

#[test]
fn enum_name_is_stripped_whatever_its_letter_case() {
    let mut translator = Translator::new(options("Lib", ".*", "$0"));
    let entity = Entity {
        name: Some("Color".to_string()),
        comment: None,
        kind: EntityKind::Enum(vec![
            EnumConstant { name: "COLOR_RED".to_string(), value: 0 },
            EnumConstant { name: "COLOR_GREEN".to_string(), value: 1 },
        ]),
    };
    translator.translate_enum("Color", "Color", &entity);
    assert_eq!(
        translator.coder().render(),
        "class Color {\n    static const RED = 0;\n    static const GREEN = 1;\n}\n"
    );
}

#[test]
fn enum_values_are_written_as_signed_64_bit_numbers() {
    let mut translator = Translator::new(options("Lib", ".*", "$0"));
    let entity = Entity {
        name: Some("E".to_string()),
        comment: Some("// limits".to_string()),
        kind: EntityKind::Enum(vec![
            EnumConstant { name: "E_MIN".to_string(), value: i64::MIN },
            EnumConstant { name: "E_MAX".to_string(), value: i64::MAX },
            EnumConstant { name: "E_NEG".to_string(), value: -10 },
        ]),
    };
    translator.translate_enum("E", "X", &entity);
    assert_eq!(
        translator.coder().render(),
        "/*limits\n */\nclass X {\n    static const MIN = -9223372036854775808;\n    static const MAX = 9223372036854775807;\n    static const NEG = -10;\n}\n"
    );
}

#[test]
fn function_signatures_map_int_to_the_native_and_the_logical_type() {
    let add = function(
        "add",
        scalar(Scalar::Int),
        vec![arg(Some("a"), scalar(Scalar::Int)), arg(Some("b"), scalar(Scalar::Int))],
    );
    let text = run(options("Lib", ".*", "$0"), &vec![add]);
    assert!(text.contains("    final int Function(int a, int b) _add;\n"));
    assert!(text.contains(
        "    : _add = dylib.lookup<NativeFunction<Int32 Function(Int32 a, Int32 b)>>('add').asFunction()\n"
    ));
}

#[test]
fn unnamed_callbacks_are_numbered_within_their_function() {
    let cb_a = pointer(function_type(scalar(Scalar::Void), vec![scalar(Scalar::Int)]));
    let cb_b = pointer(function_type(scalar(Scalar::Int), vec![]));
    let cb_c = pointer(function_type(scalar(Scalar::Void), vec![]));
    let reg = function(
        "reg",
        scalar(Scalar::Void),
        vec![arg(None, cb_a), arg(Some("done"), cb_c), arg(None, cb_b)],
    );
    let other = function(
        "other",
        scalar(Scalar::Void),
        vec![arg(None, pointer(function_type(scalar(Scalar::Void), vec![])))],
    );
    let text = run(options("Lib", ".*", "$0"), &vec![reg, other]);
    assert!(text.contains("    final Pointer<NativeFunction<Void Function(Int32)>> _reg_cb0;\n"));
    assert!(text.contains("    final Pointer<NativeFunction<Void Function()>> _reg_done;\n"));
    assert!(text.contains("    final Pointer<NativeFunction<Int32 Function()>> _reg_cb1;\n"));
    assert!(text.contains("    final Pointer<NativeFunction<Void Function()>> _other_cb0;\n"));
    assert!(text.contains(
        "        DynamicLibrary dylib\n      , this._reg_cb0\n      , this._reg_done\n      , this._reg_cb1\n      , this._other_cb0\n    )\n"
    ));
}

#[test]
fn field_of_an_unsupported_type_has_no_annotation_and_no_type() {
    let mut coder = Coder::new();
    Translator::translate_field(&mut coder, &field("next", None));
    assert_eq!(coder.render(), "  next;\n");
}

#[test]
fn field_of_a_scalar_type_is_annotated() {
    let mut coder = Coder::new();
    let documented = Field {
        name: "x".to_string(),
        comment: Some("/* the x */".to_string()),
        scalar: Some(Scalar::UShort),
    };
    Translator::translate_field(&mut coder, &documented);
    assert_eq!(coder.render(), "/*the x\n */\n@Uint16() int x;\n");
}

#[test]
fn struct_with_an_unsupported_field_is_still_emitted() {
    let entity = Entity {
        name: Some("node".to_string()),
        comment: None,
        kind: EntityKind::Struct(vec![field("value", Some(Scalar::Float)), field("next", None)]),
    };
    let text = run(options("Lib", ".*", "$0"), &vec![entity]);
    assert!(text.contains("class node extends Struct {\n    @Float() float value;\n      next;\n}\n"));
}

#[test]
fn struct_used_by_two_functions_is_emitted_once_at_its_first_reference() {
    let first = function("first", scalar(Scalar::Void), vec![arg(Some("p"), point_type())]);
    let second = function("second", pointer(point_type()), vec![]);
    let text = run(options("Lib", ".*", "$0"), &vec![color_enum(), first, second, point_struct()]);
    assert_eq!(text.matches("class point extends Struct {").count(), 1);
    let point = text.find("class point extends Struct {").unwrap();
    let color = text.find("class COLOR {").unwrap();
    assert!(point < color);
    assert!(text.contains(
        "/** A point.\n */\nclass point extends Struct {\n    @Int32() int x;\n    @Double() double y;\n}\n"
    ));
    assert!(text.contains("    final void Function(point p) _first;\n"));
    assert!(text.contains("    final Pointer<point> Function() _second;\n"));
}

#[test]
fn translating_twice_gives_the_same_text() {
    let entities = vec![
        color_enum(),
        function("f", scalar(Scalar::Long), vec![arg(None, pointer(point_type()))]),
    ];
    let one = run(options("Lib", ".*", "$0"), &entities);
    let two = run(options("Lib", ".*", "$0"), &entities);
    assert_eq!(one, two);
}

#[test]
fn names_out_of_scope_are_skipped() {
    let inside = function("lib_open", scalar(Scalar::Int), vec![]);
    let outside = function("helper", scalar(Scalar::Int), vec![]);
    let unnamed = Entity { name: None, comment: None, kind: EntityKind::Enum(Vec::new()) };
    let text = run(options("Lib", "^lib_(.*)$", "$1"), &vec![inside, outside, unnamed, color_enum()]);
    assert!(text.contains("    final int Function() _open;\n"));
    assert!(text.contains("    : _open = dylib.lookup<NativeFunction<Int32 Function()>>('lib_open').asFunction()\n"));
    assert!(!text.contains("helper"));
    assert!(!text.contains("COLOR"));
}

#[test]
fn referenced_types_are_renamed_by_the_template() {
    let decl = Entity {
        name: Some("my_point".to_string()),
        comment: None,
        kind: EntityKind::Struct(vec![field("x", Some(Scalar::Int))]),
    };
    let ty = Type { shape: Shape::Record("my_point".to_string()), declaration: Some(Box::new(decl)) };
    let make = function("my_make", scalar(Scalar::Void), vec![arg(Some("p"), ty)]);
    let text = run(options("Lib", "^my_(.*)$", "$1"), &vec![make]);
    assert!(text.contains("class point extends Struct {\n    @Int32() int x;\n}\n"));
    assert!(text.contains("    final void Function(point p) _make;\n"));
    assert!(text.contains("'my_make'"));
}

#[test]
fn second_initializer_follows_a_comma() {
    let a = function("a", scalar(Scalar::Void), vec![]);
    let b = function("b", scalar(Scalar::Void), vec![]);
    let text = run(options("Lib", ".*", "$0"), &vec![a, b]);
    assert!(text.contains("    : _a = dylib.lookup<NativeFunction<Void Function()>>('a').asFunction()\n    , _b = dylib.lookup<NativeFunction<Void Function()>>('b').asFunction()\n    {}\n"));
}

#[test]
fn function_comment_goes_in_front_of_its_field() {
    let f = Entity {
        name: Some("f".to_string()),
        comment: Some("/**\n * Does it.\n */".to_string()),
        kind: EntityKind::Function(scalar(Scalar::Void), Vec::new()),
    };
    let text = run(options("Lib", ".*", "$0"), &vec![f]);
    assert!(text.contains("    /*Functions\n     */\n    /**\n     * Does it.\n     */\n    final void Function() _f;\n"));
}

#[test]
fn typedef_of_a_struct_is_emitted_as_a_struct() {
    let decl = Entity {
        name: Some("vec2".to_string()),
        comment: None,
        kind: EntityKind::Typedef(Aliased::Record(vec![field("x", Some(Scalar::Float))])),
    };
    let text = run(options("Lib", ".*", "$0"), &vec![decl]);
    assert!(text.contains("class vec2 extends Struct {\n    @Float() float x;\n}\n"));
}

#[test]
fn typedef_of_a_function_pointer_becomes_a_callback() {
    let decl = Entity {
        name: Some("handler".to_string()),
        comment: None,
        kind: EntityKind::Typedef(Aliased::FunctionPointer(function_type(
            scalar(Scalar::Void),
            vec![scalar(Scalar::UChar)],
        ))),
    };
    let mut translator = Translator::new(options("Lib", ".*", "$0"));
    assert!(translator.translate_typedef("handler", "handler", &decl));
    assert_eq!(translator.coder().render(), "");
    let text = run(options("Lib", ".*", "$0"), &vec![decl]);
    assert!(text.contains("    final Pointer<NativeFunction<Void Function(Uint8)>> _handler;\n"));
    assert!(text.contains("      , this._handler\n"));
}

#[test]
fn typedef_of_anything_else_is_not_translated() {
    let decl = Entity {
        name: Some("size".to_string()),
        comment: None,
        kind: EntityKind::Typedef(Aliased::Other),
    };
    let mut translator = Translator::new(options("Lib", ".*", "$0"));
    assert!(!translator.translate_typedef("size", "size", &decl));
    let ty = Type { shape: Shape::Scalar(Scalar::ULong), declaration: Some(Box::new(decl)) };
    translator.parse_type(&ty);
    assert_eq!(translator.coder().render(), "");
    assert!(translator.export_once("size"));
}

#[test]
fn export_once_is_true_the_first_time_only() {
    let mut translator = Translator::new(options("Lib", ".*", "$0"));
    assert!(translator.export_once("a"));
    assert!(!translator.export_once("a"));
    assert!(translator.export_once("b"));
    assert!(!translator.export_once("a"));
}

#[test]
fn parse_type_registers_what_it_translates() {
    let mut translator = Translator::new(options("Lib", ".*", "$0"));
    translator.parse_type(&pointer(pointer(point_type())));
    let once = translator.coder().render();
    assert!(once.starts_with("/** A point.\n */\nclass point extends Struct {"));
    translator.parse_type(&point_type());
    assert_eq!(translator.coder().render(), once);
    assert!(!translator.export_once("point"));
}

#[test]
fn match_name_and_make_name_follow_the_pattern() {
    let translator = Translator::new(options("Lib", "^lib_(\\w+)$", "${1}_"));
    assert!(translator.match_name("lib_open"));
    assert!(!translator.match_name("open"));
    assert_eq!(translator.make_name("lib_open"), "open_");
    assert_eq!(translator.make_name("other"), "other");
}

#[test]
fn generated_file_begins_with_the_banner() {
    let mut out = String::new();
    translate(options("Lib", ".*", "$0"), &Vec::new(), "c4dart", "1.2.3", &mut out);
    assert_eq!(
        out,
        format!(
            "/* This file was generated using c4dart v1.2.3 tool and should not be modified manually. */\nimport 'dart:ffi';\n\n{}\n",
            EMPTY_CLASS
        )
    );
}

#[test]
fn parser_arguments_list_language_system_and_extra_directories() {
    let mut opts = options("Lib", ".*", "$0");
    opts.include_paths = vec!["inc".to_string(), "/opt/include".to_string()];
    let system = vec!["/usr/include".to_string()];
    assert_eq!(parser_arguments(&opts, &system), vec!["-xc", "-Iinc", "-I/opt/include"]);
    opts.detect_isystem = true;
    assert_eq!(
        parser_arguments(&opts, &system),
        vec!["-xc", "-isystem/usr/include", "-Iinc", "-I/opt/include"]
    );
}

#[test]
fn unsupported_type_in_a_signature_does_not_stop_the_run() {
    let exotic = Type { shape: Shape::Unsupported("Int128".to_string()), declaration: None };
    let f = function("f", exotic, vec![arg(Some("p"), point_type())]);
    let text = run(options("Lib", ".*", "$0"), &vec![f, color_enum()]);
    assert!(text.contains("    final <unsupported_type_kind:Int128> Function(point p) _f;\n"));
    assert!(text.contains("class point extends Struct {"));
    assert!(text.contains("class COLOR {"));
}

#[test]
fn enum_type_of_an_argument_is_translated_at_its_first_reference() {
    let ty = Type {
        shape: Shape::Unsupported("Enum".to_string()),
        declaration: Some(Box::new(color_enum())),
    };
    let f = function("paint", scalar(Scalar::Void), vec![arg(Some("c"), ty)]);
    let text = run(options("Lib", ".*", "$0"), &vec![f, color_enum()]);
    assert_eq!(text.matches("class COLOR {").count(), 1);
    assert!(text.contains("    final void Function(<unsupported_type_kind:Enum> c) _paint;\n"));
}

#[test]
fn typedef_of_a_function_pointer_as_result_type_becomes_a_callback() {
    let handler = Entity {
        name: Some("handler".to_string()),
        comment: None,
        kind: EntityKind::Typedef(Aliased::FunctionPointer(function_type(
            scalar(Scalar::Int),
            vec![],
        ))),
    };
    let ty = Type {
        shape: Shape::Pointer(Box::new(function_type(scalar(Scalar::Int), vec![]))),
        declaration: Some(Box::new(handler)),
    };
    let get = function("get", ty, vec![]);
    let text = run(options("Lib", ".*", "$0"), &vec![get]);
    assert!(text.contains("    final Pointer<NativeFunction<Int32 Function()>> _handler;\n"));
    assert!(text.contains(
        "    final Pointer<NativeFunction<Int32 Function()>> Function() _get;\n"
    ));
}

#[test]
fn declaration_of_another_kind_is_registered_but_not_emitted() {
    let other = Entity { name: Some("thing".to_string()), comment: None, kind: EntityKind::Other };
    let mut translator = Translator::new(options("Lib", ".*", "$0"));
    translator.translate(&vec![other]);
    assert_eq!(
        translator.coder().render(),
        format!("import 'dart:ffi';\n\n{}", EMPTY_CLASS)
    );
    assert!(!translator.export_once("thing"));
}

#[test]
fn struct_and_enum_of_another_kind_have_empty_bodies() {
    let other = Entity { name: Some("t".to_string()), comment: None, kind: EntityKind::Other };
    let mut translator = Translator::new(options("Lib", ".*", "$0"));
    translator.translate_struct("t", "T", &other);
    translator.translate_enum("t", "T", &other);
    assert_eq!(translator.coder().render(), "class T extends Struct {}\nclass T {}\n");
}

#[test]
fn parse_function_keeps_the_symbol_under_the_host_name() {
    let mut translator = Translator::new(options("Wrap", "^c_(.*)$", "$1"));
    let f = function("c_sum", scalar(Scalar::Double), vec![arg(None, scalar(Scalar::Float))]);
    translator.parse_function("c_sum", &f);
    translator.translate(&Vec::new());
    let text = translator.coder().render();
    assert!(text.contains("    final double Function(float) _sum;\n"));
    assert!(text.contains(
        "    : _sum = dylib.lookup<NativeFunction<Double Function(Float)>>('c_sum').asFunction()\n"
    ));
    assert!(text.contains("class Wrap {\n"));
    assert!(text.contains("    Wrap(\n"));
}

#[test]
fn emitter_and_descriptor_can_be_cloned() {
    let mut coder = Coder::new();
    coder.block("b", |body| {
        body.comment("c");
        body.block("inner", |inner| inner.line("l"));
    });
    let copy = coder.clone();
    coder.line("later");
    assert_eq!(copy.render(), "b {\n    /*c\n     */\n    inner {\n        l\n    }\n}\n");
    let opts = options("Lib", "^a", "b");
    let same = opts.clone();
    assert_eq!(same.class_name, "Lib");
    assert_eq!(same.names_match.as_str(), "^a");
    assert_eq!(same.names_replace, "b");
}
