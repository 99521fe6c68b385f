use rusty_lamp::generator::resolver::{ResolveError, Resolver};
use rusty_lamp::generator::typer::{DuplicateChecker, TypeDefinition, TypeDefinitionKind, Typer};
use rusty_lamp::parser::ast::{DataTypeStatement, Identifier};
use rusty_lamp::parser::lexer::Lexer;
use rusty_lamp::parser::parser::Parser;
use rusty_lamp::parser::program::Program;
use rusty_lamp::parser::token::Token;
use std::sync::Arc;

fn program(input: &str) -> Program {
    let mut parser = Parser::new(Lexer::new(input.into()));
    let program = parser.parse_program().unwrap();
    assert!(parser.errors().is_empty());
    program
}

fn primitive(names: [&str; 8]) -> TypeDefinitionKind {
    TypeDefinitionKind::Primitive(
        names[0].into(),
        names[1].into(),
        names[2].into(),
        names[3].into(),
        names[4].into(),
        names[5].into(),
        names[6].into(),
        names[7].into(),
    )
}

fn duplicate(result: Result<(), ResolveError>) -> (String, String) {
    match result {
        Err(ResolveError::Duplicate(scope, message)) => (scope, message),
        other => panic!("not a duplicate: {:?}", other),
    }
}

#[test]
fn the_registry_starts_with_the_built_in_types() {
    let typer = Typer::new();
    let rows = vec![
        ["i8", "byte", "jbyte", "int8_t", "Byte", "B", "int8_t", "NSNumber"],
        ["i16", "short", "short", "int16_6", "Short", "S", "int16_t", "NSNumber"],
        ["i32", "int", "jint", "int32_t", "Integer", "I", "int32_t", "NSNumber"],
        ["i64", "long", "jlong", "int64_t", "Long", "J", "int64_t", "NSNumber"],
        ["f32", "float", "jfloat", "float", "Float", "F", "float", "NSNumber"],
        ["f64", "double", "jdouble", "double", "Double", "D", "double", "NSNumber"],
        ["bool", "boolean", "jboolean", "bool", "Boolean", "Z", "BOOL", "NSNumber"],
    ];
    for row in rows {
        assert_eq!(typer.get(&row[0].to_string()), primitive(row));
    }
    assert_eq!(typer.get(&"string".to_string()), TypeDefinitionKind::String);
    assert_eq!(typer.get(&"binary".to_string()), TypeDefinitionKind::Binary);
    assert_eq!(typer.get(&"optional".to_string()), TypeDefinitionKind::Optional);
    assert_eq!(typer.get(&"date".to_string()), TypeDefinitionKind::Date);
    assert_eq!(typer.get(&"list".to_string()), TypeDefinitionKind::List);
    assert_eq!(typer.get(&"set".to_string()), TypeDefinitionKind::SetOf);
    assert_eq!(typer.get(&"map".to_string()), TypeDefinitionKind::MapOf);
}

#[test]
fn an_unknown_name_has_no_entry() {
    let typer = Typer::new();
    assert_eq!(typer.get(&"my_record".to_string()), TypeDefinitionKind::Nothing);
    assert_eq!(typer.get(&"".to_string()), TypeDefinitionKind::Nothing);
    assert_eq!(typer.get(&"I32".to_string()), TypeDefinitionKind::Nothing);
}

#[test]
fn a_later_insertion_wins() {
    let mut typer = Typer::new();
    let name = "thing".to_string();
    assert!(typer.insert_type(&name, TypeDefinitionKind::UserObject("first".into())).is_ok());
    assert_eq!(typer.get(&name), TypeDefinitionKind::UserObject("first".into()));
    assert!(typer.insert_type(&name, TypeDefinitionKind::UserObject("second".into())).is_ok());
    assert_eq!(typer.get(&name), TypeDefinitionKind::UserObject("second".into()));
    assert!(typer.insert_type(&"i32".to_string(), TypeDefinitionKind::Date).is_ok());
    assert_eq!(typer.get(&"i32".to_string()), TypeDefinitionKind::Date);
    assert_eq!(typer.get(&"i64".to_string()).render(), "i64");
    let copy = typer.clone();
    assert_eq!(copy.get(&name), TypeDefinitionKind::UserObject("second".into()));
    assert_eq!(copy.get(&"i32".to_string()), TypeDefinitionKind::Date);
}

#[test]
fn a_type_expression_is_found_by_its_head() {
    let mut typer = Typer::new();
    let list = DataTypeStatement::List(Arc::new(DataTypeStatement::String));
    let map = DataTypeStatement::MapOf(
        Arc::new(DataTypeStatement::String),
        Arc::new(DataTypeStatement::Bool),
    );
    let object = DataTypeStatement::Object(Identifier {
        token: Token::Ident("thing".into()),
        value: "thing".into(),
    });
    assert_eq!(typer.get_from_data_type(&list), TypeDefinitionKind::List);
    assert_eq!(typer.get_from_data_type(&map), TypeDefinitionKind::MapOf);
    assert_eq!(typer.get_from_data_type(&DataTypeStatement::String), TypeDefinitionKind::String);
    assert_eq!(typer.get_from_data_type(&DataTypeStatement::Nothing), TypeDefinitionKind::Nothing);
    assert_eq!(typer.get_from_data_type(&object), TypeDefinitionKind::Nothing);
    typer.insert_type(&"thing".to_string(), TypeDefinitionKind::UserObject("thing".into())).unwrap();
    assert_eq!(typer.get_from_data_type(&object), TypeDefinitionKind::UserObject("thing".into()));
}

#[test]
fn kinds_have_their_number_of_parameters() {
    assert_eq!(TypeDefinitionKind::MapOf.num_params(), 2);
    assert_eq!(TypeDefinitionKind::List.num_params(), 1);
    assert_eq!(TypeDefinitionKind::SetOf.num_params(), 1);
    assert_eq!(TypeDefinitionKind::Optional.num_params(), 1);
    assert_eq!(TypeDefinitionKind::String.num_params(), 0);
    assert_eq!(TypeDefinitionKind::Binary.num_params(), 0);
    assert_eq!(TypeDefinitionKind::Date.num_params(), 0);
    assert_eq!(TypeDefinitionKind::Nothing.num_params(), 0);
    assert_eq!(TypeDefinitionKind::UserObject("x".into()).num_params(), 0);
    assert_eq!(Typer::new().get(&"i8".to_string()).num_params(), 0);
    assert_eq!(TypeDefinitionKind::UserObject("x".into()).render(), "x");
    assert_eq!(TypeDefinitionKind::MapOf.render(), "map");
    assert_eq!(TypeDefinitionKind::Nothing.render(), "none");
    let definition = TypeDefinition { identifier: "map".into(), num_params: 2 };
    assert_eq!(definition.num_params, TypeDefinitionKind::MapOf.num_params());
}

#[test]
fn the_checker_finds_a_name_seen_before() {
    let mut checker = DuplicateChecker::new("Record".into());
    assert!(checker.check(&"a".to_string()).is_ok());
    assert!(checker.check(&"b".to_string()).is_ok());
    assert_eq!(
        duplicate(checker.check(&"a".to_string())),
        ("Record".to_string(), "a".to_string())
    );
    assert!(checker.check(&"c".to_string()).is_ok());
    assert_eq!(
        duplicate(checker.check(&"b".to_string())),
        ("Record".to_string(), "b".to_string())
    );
}

#[test]
fn an_enum_option_twice_is_a_duplicate_in_the_enum() {
    let mut resolver = Resolver::new();
    let result = resolver.resolve(&program("X = enum { a; a; }"));
    assert_eq!(duplicate(result), ("Enum".to_string(), "a".to_string()));
    assert_eq!(
        resolver.typer().get(&"X".to_string()),
        TypeDefinitionKind::UserObject("X".into())
    );
}

#[test]
fn a_name_twice_at_the_top_is_a_duplicate_at_the_top_level() {
    let mut resolver = Resolver::new();
    let result = resolver.resolve(&program("X = enum { a; }\nY = record { }\nX = record { b: i32; }"));
    assert_eq!(duplicate(result), ("Top Level".to_string(), "X".to_string()));
    assert_eq!(
        resolver.typer().get(&"Y".to_string()),
        TypeDefinitionKind::UserObject("Y".into())
    );
}

#[test]
fn fields_and_functions_have_scopes_of_their_own() {
    let mut resolver = Resolver::new();
    let result = resolver.resolve(&program("R = record { a: i32; b: string; a: bool; }"));
    assert_eq!(duplicate(result), ("Record".to_string(), "a".to_string()));
    let mut resolver = Resolver::new();
    let result = resolver.resolve(&program("I = interface +c { f(); g(): i32; f(x: i8); }"));
    assert_eq!(duplicate(result), ("Interface".to_string(), "f".to_string()));
}

#[test]
fn the_same_member_in_two_declarations_is_no_duplicate() {
    let mut resolver = Resolver::new();
    let text = "# the types\nA = enum { a; b; }\nB = enum { a; b; }\nC = record { a: A; A: B; }\nD = interface { a(); C(); }\n@import \"x\"";
    assert!(resolver.resolve(&program(text)).is_ok());
    for name in ["A", "B", "C", "D"] {
        assert_eq!(
            resolver.typer().get(&name.to_string()),
            TypeDefinitionKind::UserObject(name.into())
        );
    }
    assert_eq!(resolver.typer().get(&"a".to_string()), TypeDefinitionKind::Nothing);
    assert_eq!(resolver.typer().get(&"i32".to_string()).render(), "i32");
}

#[test]
fn an_error_has_its_message() {
    assert_eq!(
        ResolveError::Duplicate("Enum".into(), "a".into()).message(),
        "Type already defined: a"
    );
    assert_eq!(ResolveError::Resolve("no such file".into()).message(), "no such file");
    assert_eq!(ResolveError::ExpectedEnumOption.message(), "Expected an enum option");
}

#[test]
fn the_first_duplicate_ends_the_pass() {
    let mut resolver = Resolver::new();
    let result = resolver.resolve(&program("A = enum { x; y; y; x; }\nB = enum { }"));
    assert_eq!(duplicate(result), ("Enum".to_string(), "y".to_string()));
    assert_eq!(resolver.typer().get(&"B".to_string()), TypeDefinitionKind::Nothing);
}

#[test]
fn a_resolver_can_start_from_a_given_registry() {
    let mut typer = Typer::new();
    typer.insert_type(&"Known".to_string(), TypeDefinitionKind::UserObject("Known".into())).unwrap();
    let mut resolver = Resolver::with_typer(typer);
    assert!(resolver.resolve(&Program::new()).is_ok());
    assert_eq!(
        resolver.typer().get(&"Known".to_string()),
        TypeDefinitionKind::UserObject("Known".into())
    );
}

#[test]
fn a_type_has_as_many_arguments_as_its_kind_takes() {
    let typer = Typer::new();
    let string = Arc::new(DataTypeStatement::String);
    let cases = vec![
        (DataTypeStatement::MapOf(string.clone(), string.clone()), 2),
        (DataTypeStatement::List(string.clone()), 1),
        (DataTypeStatement::SetOf(string.clone()), 1),
        (DataTypeStatement::String, 0),
        (DataTypeStatement::Integer8, 0),
        (DataTypeStatement::Integer16, 0),
        (DataTypeStatement::Integer32, 0),
        (DataTypeStatement::Integer64, 0),
        (DataTypeStatement::Float32, 0),
        (DataTypeStatement::Float64, 0),
        (DataTypeStatement::Bool, 0),
        (DataTypeStatement::Binary, 0),
        (DataTypeStatement::Date, 0),
        (DataTypeStatement::Nothing, 0),
    ];
    for (ty, arguments) in cases {
        assert_eq!(typer.get_from_data_type(&ty).num_params(), arguments);
    }
}

#[test]
fn a_program_with_unique_names_resolves() {
    let texts = vec![
        ("", true),
        ("A = enum { }", true),
        ("A = enum { a; b; }\nB = record { a: i32; b: A; }\nC = interface { a(); b(); }", true),
        ("A = enum { a; }\nA = enum { b; }", false),
        ("A = enum { a; }\nB = record { x: A; }\nA = interface { }", false),
        ("A = record { a: i32; a: i32; }", false),
        ("A = interface { f(); g(); f(): i32; }", false),
        ("A = enum { a; b; a; }\nA = enum { }", false),
    ];
    for (text, unique) in texts {
        assert_eq!(Resolver::new().resolve(&program(text)).is_ok(), unique, "{}", text);
    }
}
