use rusty_lamp::parser::ast::StatementKind;
use rusty_lamp::parser::lexer::Lexer;
use rusty_lamp::parser::parser::Parser;

#[test]
fn test_parse_import() {
    let input = r#"@import "dep.djinni"
                       #comment test
                      "#;

    let lexer = Lexer::new(input.into());
    let mut parser = Parser::new(lexer);
    let program = parser.parse_program().unwrap_or_default();

    for s in program.statements.clone() {
        println!("{}", s.stmtKind.render());
    }

    let stmt = program.statements[0].clone();
    match stmt.stmtKind {
        StatementKind::Import(_, ref s) => {
            assert!(s == "dep.djinni");
        }
        _ => {
            assert!(false, "exptected Import statement, got={}.", stmt.stmtKind.render());
        }
    }
}

#[test]
fn test_parse_enum() {
    let input = r#"my_enum = enum {
                          option1;
                          option2;
                          option3;
                       }"#;

    let lexer = Lexer::new(input.into());
    let mut parser = Parser::new(lexer);
    let program = parser.parse_program().unwrap_or_default();

    let expected_enum_values = vec!["option1", "option2", "option3"];

    let stmt = program.statements[0].clone();
    match stmt.stmtKind {
        StatementKind::Enum(_, ref i, ref b) => {
            assert!(i.value == "my_enum", "{} != {}", i.value, "my_enum");
            let mut index = 0;
            let block = b.clone();
            for s in block.statements {
                match s.stmtKind {
                    StatementKind::EnumMember(_, ref i) => {
                        assert!(
                            i.value == expected_enum_values[index],
                            "enum mumber did not match: {} != {}",
                            i.value,
                            expected_enum_values[index]
                        );
                        index = index + 1;
                    }
                    _ => {}
                }
            }
        }
        _ => {
            assert!(false, "exptected Enum statement, got={}.", stmt.stmtKind.render());
        }
    }
}

#[test]
fn test_parse_record() {
    struct TestData {
        expected_ident: String,
        expected_type: String,
    }

    let input = r#"my_record = record {
                            id: i32;
                            info: string;
                            store: set<string>;
                            hash: map<string, i32>;

                            values: list<another_record>;
                            set_list : list<set<string>>;
                            images: image_store;

                       }"#;

    let lexer = Lexer::new(input.into());
    let mut parser = Parser::new(lexer);
    let program = parser.parse_program().unwrap_or_default();

    let test_cases = vec![
        TestData { expected_ident: "id".into(), expected_type: "i32".into() },
        TestData { expected_ident: "info".into(), expected_type: "string".into() },
        TestData { expected_ident: "store".into(), expected_type: "set<string>".into() },
        TestData { expected_ident: "hash".into(), expected_type: "map<string, i32>".into() },
        TestData { expected_ident: "values".into(), expected_type: "list<another_record>".into() },
        TestData { expected_ident: "set_list".into(), expected_type: "list<set<string>>".into() },
        TestData { expected_ident: "images".into(), expected_type: "image_store".into() },
    ];

    let stmt = program.statements[0].clone();
    match stmt.stmtKind {
        StatementKind::Record(_, ref i, ref b, _) => {
            assert!(i.value == "my_record", "{} != {}", i.value, "my_enum");
            let mut index = 0;
            let block = b.clone();
            for s in block.statements {
                match s.stmtKind {
                    StatementKind::RecordMember(_, ref i, ref d) => {
                        assert!(
                            i.value == test_cases[index].expected_ident,
                            "record mumber did not match: {} != {}",
                            i.value,
                            test_cases[index].expected_ident
                        );
                        let t = d.render();
                        assert!(
                            t == test_cases[index].expected_type,
                            "types do not match: {} != {}",
                            t,
                            test_cases[index].expected_type
                        );
                        index = index + 1;
                    }
                    _ => {}
                }
            }
        }
        _ => {
            assert!(false, "exptected Record statement, got={}.", stmt.stmtKind.render());
        }
    }
}

#[test]
fn test_interface_statement() {
    struct TestData {
        expected_ident: String,
    }

    let input = r#"
                my_cpp_interface = interface +c {
                    #method with no return value
                    method_returning_nothing(value: i32);

                    method_multiple_params(first: string, value: i32): list<string>;
                    # Comments can also be put here
                    method_returning_some_type(key: string): another_record;
                    const string_const: string = "Constants can be put here";
                    static get_version(): i32;
                    const version: i32 = 1;
                    const min_value: another_record = {
                        key1 = 0,
                        key2 = ""
                    };
                }
                    "#;

    let lexer = Lexer::new(input.into());
    let mut parser = Parser::new(lexer);
    let program = parser.parse_program().unwrap_or_default();

    let test_cases = vec![
        TestData { expected_ident: "#method with no return value".into() },
        TestData { expected_ident: "method_returning_nothing".into() },
        TestData { expected_ident: "method_multiple_params".into() },
        TestData { expected_ident: "# Comments can also be put here".into() },
        TestData { expected_ident: "method_returning_some_type".into() },
        TestData { expected_ident: "string_const".into() },
        TestData { expected_ident: "get_version".into() },
        TestData { expected_ident: "version".into() },
        TestData { expected_ident: "min_value".into() },
    ];

    let stmt = program.statements[0].clone();
    match stmt.stmtKind {
        StatementKind::Interface(_, ref i, _, ref b, _) => {
            assert!(
                i.value == "my_cpp_interface",
                "Interface name did not match: {} != {}",
                i.value,
                "my_cpp_interface"
            );

            let mut index = 0;
            for bs in b.statements.clone() {
                match bs.stmtKind {
                    StatementKind::Function(_, _, ref i, _, _) => {
                        assert!(
                            i.value == test_cases[index].expected_ident,
                            "Identifier did not match: {} != {}",
                            i.value,
                            test_cases[index].expected_ident
                        );
                        index = index + 1;
                    }
                    StatementKind::Comment(ref t, _) => {
                        let comment = t.render();
                        assert!(
                            comment == test_cases[index].expected_ident,
                            "Comment did not match: {} != {}",
                            comment,
                            test_cases[index].expected_ident
                        );
                        index = index + 1;
                    }
                    StatementKind::Const(_, ref i, _, _) => {
                        let const_ident = format!("{}", i.value);
                        println!("{}", bs.stmtKind.render());
                        assert!(
                            const_ident == test_cases[index].expected_ident,
                            "Comment did not match: {} != {}",
                            const_ident,
                            test_cases[index].expected_ident
                        );
                        index = index + 1;
                    }
                    _ => {
                        assert!(
                            false,
                            "Expected a function, comment or const statement, got={}",
                            bs.stmtKind.render()
                        );
                    }
                }
            }
        }
        _ => {
            assert!(false, "exptected Interface statement, got={}.", stmt.stmtKind.render());
        }
    }
}

use rusty_lamp::parser::ast::{
    BlockStatement, DataTypeStatement, DeriveType, FunctionModifier, Identifier, InterfaceType,
    Parameter, Statement,
};
use rusty_lamp::parser::parser::ParseError;
use rusty_lamp::parser::program::Program;
use rusty_lamp::parser::token::{DataType, Token};
use std::sync::Arc;

fn parse(input: &str) -> (Program, Vec<ParseError>) {
    let mut parser = Parser::new(Lexer::new(input.into()));
    let program = parser.parse_program().unwrap();
    (program, parser.errors().clone())
}

fn ident(name: &str) -> Identifier {
    Identifier { token: Token::Ident(name.into()), value: name.into() }
}

fn object(name: &str) -> DataTypeStatement {
    DataTypeStatement::Object(ident(name))
}

fn field(name: &str, ty: DataTypeStatement) -> Statement {
    Statement { stmtKind: StatementKind::RecordMember(Token::Ident(name.into()), ident(name), ty) }
}

fn record(name: &str, fields: Vec<Statement>, derives: Vec<DeriveType>) -> Statement {
    Statement {
        stmtKind: StatementKind::Record(
            Token::Record,
            ident(name),
            BlockStatement { token: Token::Record, statements: fields },
            derives,
        ),
    }
}

fn error(expected: Token, actual: Token, position: usize) -> ParseError {
    ParseError { expected, actual, position }
}

#[test]
fn empty_text_is_the_empty_program() {
    let (program, errors) = parse("");
    assert!(program.statements.is_empty());
    assert!(errors.is_empty());
    assert!(Program::new().statements.is_empty());
    assert!(Program::default().statements.is_empty());
}

#[test]
fn a_map_with_one_argument_is_no_map() {
    let (program, errors) = parse("r = record { m: map<string>; }");
    assert!(program.statements.is_empty());
    assert_eq!(errors, vec![error(Token::Comma, Token::Gt, 9)]);
}

#[test]
fn a_list_with_two_arguments_is_no_list() {
    let (program, errors) = parse("r = record { l: list<string, i32>; }");
    assert!(program.statements.is_empty());
    assert_eq!(errors[0], error(Token::Gt, Token::Comma, 9));
}

#[test]
fn a_missing_closing_bracket_is_an_error() {
    let (program, errors) = parse("r = record { s: set<string; }");
    assert!(program.statements.is_empty());
    assert_eq!(errors, vec![error(Token::Gt, Token::Semicolon, 9)]);
}

#[test]
fn nested_types_parse_and_render() {
    let (program, errors) = parse("r = record { values: list<set<map<string, i32>>>; }");
    assert!(errors.is_empty());
    let expected = DataTypeStatement::List(Arc::new(DataTypeStatement::SetOf(Arc::new(
        DataTypeStatement::MapOf(
            Arc::new(DataTypeStatement::String),
            Arc::new(DataTypeStatement::Integer32),
        ),
    ))));
    assert_eq!(program.statements, vec![record("r", vec![field("values", expected.clone())], vec![])]);
    assert_eq!(expected.render(), "list<set<map<string, i32>>>");
    assert_eq!(expected.get_name(), "list");
    assert_eq!(expected.clone(), expected);
    let again = format!("r = record {{ values: {}; }}", expected.render());
    assert_eq!(parse(&again).0.statements, program.statements);
}

#[test]
fn an_interface_keeps_its_targets_and_functions() {
    let (program, errors) = parse("my_cpp_interface = interface +c { get_version(): i32; }");
    assert!(errors.is_empty());
    let function = Statement {
        stmtKind: StatementKind::Function(
            Token::Ident("get_version".into()),
            FunctionModifier::Nothing,
            ident("get_version"),
            vec![],
            DataTypeStatement::Integer32,
        ),
    };
    let expected = Statement {
        stmtKind: StatementKind::Interface(
            Token::Interface,
            ident("my_cpp_interface"),
            vec![InterfaceType::Cpp],
            BlockStatement { token: Token::Interface, statements: vec![function] },
            vec![],
        ),
    };
    assert_eq!(program.statements, vec![expected]);
}

#[test]
fn all_targets_are_kept_in_order() {
    let (program, errors) = parse("i = interface +o +j +c { }");
    assert!(errors.is_empty());
    match &program.statements[0].stmtKind {
        StatementKind::Interface(_, _, targets, body, derives) => {
            assert_eq!(
                targets,
                &vec![InterfaceType::ObjectiveC, InterfaceType::Java, InterfaceType::Cpp]
            );
            assert!(body.statements.is_empty());
            assert!(derives.is_empty());
        }
        other => panic!("not an interface: {}", other.render()),
    }
}

#[test]
fn deriving_keeps_the_order_of_the_clause() {
    let (program, errors) = parse("R = record { id: i32; } deriving(eq, ord)");
    assert!(errors.is_empty());
    assert_eq!(
        program.statements,
        vec![record(
            "R",
            vec![field("id", DataTypeStatement::Integer32)],
            vec![DeriveType::Eq, DeriveType::Ord]
        )]
    );
    let (swapped, _) = parse("R = record { } deriving (ord, eq)");
    assert_eq!(swapped.statements, vec![record("R", vec![], vec![DeriveType::Ord, DeriveType::Eq])]);
}

#[test]
fn deriving_without_bracket_is_an_error() {
    let (program, errors) = parse("R = record { } deriving eq");
    assert!(program.statements.is_empty());
    assert_eq!(errors, vec![error(Token::LParen, Token::Eq, 6)]);
}

#[test]
fn static_belongs_to_the_function_behind_it() {
    let (program, errors) = parse("i = interface { static a(); b(); }");
    assert!(errors.is_empty());
    let modifiers: Vec<FunctionModifier> = match &program.statements[0].stmtKind {
        StatementKind::Interface(_, _, _, body, _) => body
            .statements
            .iter()
            .map(|s| match &s.stmtKind {
                StatementKind::Function(_, m, _, _, _) => *m,
                other => panic!("not a function: {}", other.render()),
            })
            .collect(),
        other => panic!("not an interface: {}", other.render()),
    };
    assert_eq!(modifiers, vec![FunctionModifier::Static, FunctionModifier::Nothing]);
}

#[test]
fn parameters_and_return_types_are_kept() {
    let (program, errors) = parse("i = interface { f(first: string, value: list<i8>): map<string, other>; }");
    assert!(errors.is_empty());
    match &program.statements[0].stmtKind {
        StatementKind::Interface(_, _, _, body, _) => match &body.statements[0].stmtKind {
            StatementKind::Function(_, _, name, parameters, ret) => {
                assert_eq!(name, &ident("f"));
                assert_eq!(
                    parameters,
                    &vec![
                        Parameter { ident: ident("first"), data_type: DataTypeStatement::String },
                        Parameter {
                            ident: ident("value"),
                            data_type: DataTypeStatement::List(Arc::new(DataTypeStatement::Integer8)),
                        },
                    ]
                );
                assert_eq!(
                    ret,
                    &DataTypeStatement::MapOf(
                        Arc::new(DataTypeStatement::String),
                        Arc::new(object("other"))
                    )
                );
                assert_eq!(parameters[0].render(), "(first: string)");
            }
            other => panic!("not a function: {}", other.render()),
        },
        other => panic!("not an interface: {}", other.render()),
    }
}

#[test]
fn a_return_type_without_semicolon_is_an_error() {
    let (program, errors) = parse("i = interface { f(): i32 }");
    assert!(program.statements.is_empty());
    assert_eq!(errors, vec![error(Token::Semicolon, Token::RBrace, 9)]);
}

#[test]
fn a_name_without_bracket_in_an_interface_is_an_error() {
    let (program, errors) = parse("i = interface { f; }");
    assert!(program.statements.is_empty());
    assert_eq!(errors, vec![error(Token::LParen, Token::Semicolon, 5)]);
}

#[test]
fn constants_keep_their_values() {
    let (program, errors) = parse(
        "r = record { const a: string = \"x\"; const b: i32 = 12; const c: bool = true; const d: bool = false; const e: other = { k = 1, l = { m = \"\" } }; }",
    );
    assert!(errors.is_empty());
    let values: Vec<String> = match &program.statements[0].stmtKind {
        StatementKind::Record(_, _, body, _) => {
            body.statements.iter().map(|s| s.stmtKind.render()).collect()
        }
        other => panic!("not a record: {}", other.render()),
    };
    assert_eq!(
        values,
        vec![
            "const a: string = \"x\";",
            "const b: i32 = 12;",
            "const c: bool = true;",
            "const d: bool = false;",
            "const e: other = { k = 1,l = { m = \"\", }, };",
        ]
    );
}

#[test]
fn a_constant_without_colon_or_equal_is_an_error() {
    let (_, errors) = parse("r = record { const a string = \"x\"; }");
    assert_eq!(errors, vec![error(Token::Colon, Token::Type(DataType::String, "string".into()), 6)]);
    let (_, errors) = parse("r = record { const a: string \"x\"; }");
    assert_eq!(errors, vec![error(Token::Equal, Token::StringToken("x".into()), 8)]);
    let (_, errors) = parse("r = record { const a: t = { k 1 }; }");
    assert_eq!(errors[0], error(Token::Equal, Token::Number("1".into()), 11));
}

#[test]
fn a_field_without_colon_is_an_error() {
    let (program, errors) = parse("r = record { a i32; }");
    assert!(program.statements.is_empty());
    assert_eq!(errors[0], error(Token::Colon, Token::Type(DataType::Integer32, "i32".into()), 5));
}

#[test]
fn an_unclosed_body_is_an_error_at_the_end() {
    let (program, errors) = parse("e = enum { a;");
    assert!(program.statements.is_empty());
    assert_eq!(errors, vec![error(Token::RBrace, Token::Eof, 6)]);
    let (_, errors) = parse("r = record { a: i32;");
    assert_eq!(errors, vec![error(Token::RBrace, Token::Eof, 8)]);
    let (_, errors) = parse("i = interface +c");
    assert_eq!(errors[0], error(Token::LBrace, Token::Eof, 4));
    let (_, errors) = parse("i = interface { f(a: i32");
    assert_eq!(errors[0], error(Token::RParen, Token::Eof, 9));
}

#[test]
fn enum_and_record_need_a_brace() {
    let (program, errors) = parse("e = enum x");
    assert!(program.statements.is_empty());
    assert_eq!(errors, vec![error(Token::LBrace, Token::Ident("x".into()), 3)]);
    let (program, errors) = parse("r = record");
    assert!(program.statements.is_empty());
    assert_eq!(errors, vec![error(Token::LBrace, Token::Eof, 3)]);
}

#[test]
fn an_import_needs_its_word_and_its_path() {
    let (program, errors) = parse("@ \"a\"");
    assert!(program.statements.is_empty());
    assert_eq!(errors, vec![error(Token::Import, Token::StringToken("a".into()), 1)]);
    let (program, errors) = parse("@import x = enum { a; }");
    assert_eq!(errors, vec![error(Token::StringToken("".into()), Token::Ident("x".into()), 2)]);
    assert_eq!(program.statements.len(), 1);
    assert!(matches!(program.statements[0].stmtKind, StatementKind::Enum(..)));
}

#[test]
fn an_error_leaves_out_its_statement_only() {
    let (program, errors) = parse("a = enum { x; }\nb = record { f: map<i8>; }\nc = enum { y; }");
    assert_eq!(errors.len(), 1);
    let names: Vec<String> = program
        .statements
        .iter()
        .map(|s| match &s.stmtKind {
            StatementKind::Enum(_, i, _) => i.value.clone(),
            other => panic!("not an enum: {}", other.render()),
        })
        .collect();
    assert_eq!(names, vec!["a", "c"]);
}

#[test]
fn any_other_declaration_is_the_empty_statement() {
    let (program, errors) = parse("x = y");
    assert!(errors.is_empty());
    assert_eq!(program.statements, vec![Statement::new()]);
    assert_eq!(program.statements[0].render(), "noop");
}

#[test]
fn comments_are_kept_between_members() {
    let (program, errors) = parse("# top\ne = enum {\n # first\n a;\n # last\n}");
    assert!(errors.is_empty());
    assert_eq!(program.statements.len(), 2);
    assert_eq!(program.statements[0].render(), "# top");
    assert_eq!(program.statements[1].render(), "e = enum {\n\t# firsta;# last\n}");
    assert_eq!(program.render(), "# tope = enum {\n\t# firsta;# last\n}");
    assert_eq!(program.clone().statements, program.statements);
}

#[test]
fn an_enum_member_needs_its_semicolon() {
    let (program, errors) = parse("e = enum { a b; }");
    assert!(errors.is_empty());
    assert_eq!(program.statements[0].render(), "e = enum {\n\tb;\n}");
}

#[test]
fn types_are_named_by_their_keyword() {
    assert_eq!(DataTypeStatement::from_data_type(&DataType::Integer64), DataTypeStatement::Integer64);
    assert_eq!(DataTypeStatement::from_data_type(&DataType::List), DataTypeStatement::Nothing);
    assert_eq!(DataTypeStatement::from_data_type(&DataType::Optional), DataTypeStatement::Nothing);
    assert_eq!(DataTypeStatement::Nothing.get_name(), "none");
    assert_eq!(DataTypeStatement::Binary.get_name(), "binary");
    assert_eq!(object("thing").get_name(), "thing");
    assert_eq!(object("thing").render(), "thing");
    assert_eq!(DeriveType::Eq.render(), "eq");
    assert_eq!(DeriveType::Ord.render(), "ord");
    assert_eq!(DeriveType::Nothing.render(), "");
    assert_eq!(FunctionModifier::Static.render(), "static");
    assert_eq!(InterfaceType::Java.render(), "+j");
    assert_eq!(InterfaceType::ObjectiveC.render(), "+o");
}
