use rusty_lamp::generator::cpp_generator::CppGenerator;
use rusty_lamp::generator::cpp_marshaler::CppMarshaler;
use rusty_lamp::generator::generator::{Generate, Generator};
use rusty_lamp::generator::java_generator::JavaGenerator;
use rusty_lamp::generator::jni_generator::JniGenerator;
use rusty_lamp::generator::objc_generator::ObjcGenerator;
use rusty_lamp::generator::resolver::ResolveError;
use rusty_lamp::generator::spec::Spec;
use rusty_lamp::generator::typer::{TypeDefinitionKind, Typer};
use rusty_lamp::parser::ast::DataTypeStatement;
use rusty_lamp::parser::token::Token;
use rusty_lamp::parser::parser::parse_text;
use rusty_lamp::{compile, CompileError};
use std::sync::Arc;

fn settings() -> Spec {
    Spec::new("generated-src".into(), "cpp".into(), Typer::new())
}

const ENUM_HEADER: &str = "// AUTOGENERATED FILE - DO NOT MODIFY!\n// This file was generated by rusty_lamp\n#pragma once\nnamespace_gen {\nenum color\nred;\ngreen;\n}\n}\n";

const RECORD_HEADER: &str = "// AUTOGENERATED FILE - DO NOT MODIFY!\n// This file was generated by rusty_lamp\n#pragma once\nnamespace_gen {\nstruct point {\ni32 x;\nlist<string> names;\n};\n}\n";

const TEXT: &str = "# kinds\ncolor = enum { red; # warm\n green; }\npoint = record { x: i32; names: list<string>; const k: i32 = 1; }\nshape = interface +c { area(): f64; }";

#[test]
fn the_settings_start_without_java() {
    let spec = settings();
    assert_eq!(spec.root, "generated-src");
    assert_eq!(spec.cpp_root, "cpp");
    assert!(spec.java_out_folder.is_none());
    assert!(spec.java_package.is_none());
    assert_eq!(spec.java_class_access_modifier, "");
    assert_eq!(spec.typer.get(&"string".to_string()), TypeDefinitionKind::String);
}

#[test]
fn the_marshaler_knows_the_headers_and_names() {
    let marshaler = CppMarshaler::new();
    let string = Arc::new(DataTypeStatement::String);
    assert_eq!(marshaler.include_file(&DataTypeStatement::MapOf(string.clone(), string.clone())), "<unordered_map>");
    assert_eq!(marshaler.include_file(&DataTypeStatement::SetOf(string.clone())), "<unordered_set>");
    assert_eq!(marshaler.include_file(&DataTypeStatement::List(string.clone())), "<vector>");
    assert_eq!(marshaler.include_file(&DataTypeStatement::String), "<string>");
    assert_eq!(marshaler.include_file(&DataTypeStatement::Integer32), "");
    assert_eq!(marshaler.include_file(&DataTypeStatement::Nothing), "");
    let typer = Typer::new();
    assert_eq!(marshaler.get_type_name(TypeDefinitionKind::MapOf), "std::unordered_map");
    assert_eq!(marshaler.get_type_name(TypeDefinitionKind::SetOf), "std::unordered_set");
    assert_eq!(marshaler.get_type_name(TypeDefinitionKind::List), "std::vector");
    assert_eq!(marshaler.get_type_name(TypeDefinitionKind::String), "std::string");
    assert_eq!(marshaler.get_type_name(typer.get(&"i64".to_string())), "int64_t");
    assert_eq!(marshaler.get_type_name(typer.get(&"bool".to_string())), "bool");
    assert_eq!(marshaler.get_type_name(TypeDefinitionKind::UserObject("point".into())), "point");
    assert_eq!(marshaler.get_type_name(TypeDefinitionKind::Date), "");
    assert_eq!(marshaler.get_type_name(TypeDefinitionKind::Nothing), "");
}

#[test]
fn the_cpp_generator_writes_a_header_for_each_enum_and_record() {
    let program = parse_text(TEXT.into()).unwrap();
    let files = Generator::new(CppGenerator::new()).generate(&settings(), &program);
    assert_eq!(files.len(), 2);
    assert_eq!(files[0].path, "generated-src/cpp/color.hpp");
    assert_eq!(files[0].contents, ENUM_HEADER);
    assert_eq!(files[1].path, "generated-src/cpp/point.hpp");
    assert_eq!(files[1].contents, RECORD_HEADER);
}

#[test]
fn a_generator_writes_only_for_its_own_kind_of_statement() {
    let program = parse_text(TEXT.into()).unwrap();
    let spec = settings();
    let cpp = CppGenerator::new();
    let an_enum = &program.statements[1].stmtKind;
    let a_record = &program.statements[2].stmtKind;
    let an_interface = &program.statements[3].stmtKind;
    assert_eq!(cpp.write_enum(an_enum, &spec).unwrap().contents, ENUM_HEADER);
    assert!(cpp.write_enum(a_record, &spec).is_none());
    assert_eq!(cpp.write_record(a_record, &spec).unwrap().contents, RECORD_HEADER);
    assert!(cpp.write_record(an_enum, &spec).is_none());
    assert!(cpp.write_interface(an_interface).is_none());
}

#[test]
fn the_other_generators_write_nothing() {
    let program = parse_text(TEXT.into()).unwrap();
    let spec = settings();
    assert!(Generator::new(JavaGenerator::new()).generate(&spec, &program).is_empty());
    assert!(Generator::new(JniGenerator::new()).generate(&spec, &program).is_empty());
    assert!(Generator::new(ObjcGenerator::new()).generate(&spec, &program).is_empty());
    let an_enum = &program.statements[1].stmtKind;
    assert!(JavaGenerator::new().write_enum(an_enum, &spec).is_none());
    assert!(JniGenerator::new().write_record(an_enum, &spec).is_none());
    assert!(ObjcGenerator::new().write_interface(an_enum).is_none());
}

#[test]
fn compiling_gives_the_files_of_all_generators() {
    let files = compile(TEXT.into(), &settings()).unwrap();
    let paths: Vec<&str> = files.iter().map(|f| f.path.as_str()).collect();
    assert_eq!(paths, vec!["generated-src/cpp/color.hpp", "generated-src/cpp/point.hpp"]);
    assert!(compile("".into(), &settings()).unwrap().is_empty());
}

#[test]
fn compiling_fails_with_the_parse_errors() {
    match compile("a = enum { x; }\nb = record { f: map<i8>; ".into(), &settings()) {
        Err(CompileError::Parse(errors)) => {
            assert_eq!(errors.len(), 2);
            assert_eq!(errors[0].expected, Token::Comma);
            assert_eq!(errors[0].actual, Token::Gt);
            assert_eq!(errors[0].position, 16);
            assert_eq!(errors[1].expected, Token::RBrace);
            assert_eq!(errors[1].actual, Token::Eof);
            assert_eq!(errors[1].position, 18);
        }
        other => panic!("not a parse error: {:?}", other),
    }
    assert_eq!(parse_text("e = enum".into()).unwrap_err().len(), 1);
}

#[test]
fn compiling_fails_with_the_duplicate() {
    match compile("a = enum { x; }\na = record { }".into(), &settings()) {
        Err(CompileError::Resolve(ResolveError::Duplicate(scope, message))) => {
            assert_eq!(scope, "Top Level");
            assert_eq!(message, "a");
        }
        other => panic!("not a duplicate: {:?}", other),
    }
}
