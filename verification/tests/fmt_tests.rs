use rusty_lamp::parser::djinni_fmt::LampFmt;
use rusty_lamp::parser::lexer::Lexer;
use rusty_lamp::parser::parser::Parser;
use rusty_lamp::parser::token::Token;
use rusty_lamp::process;

const SOURCE: &str = r#"@import "dep.djinni"
# the kinds
my_enum = enum { option1; # inside
 option2; }
my_record = record {
    id: i32;
    hash: map<string, list<set<i64>>>;
    other: another_record;
    const limit: i32 = 10;
    const name: string = "n";
    const on: bool = true;
} deriving (eq, ord)
my_interface = interface +j +c {
    # a method
    nothing(value: i32);
    static more(first: string, second: i8): list<string>;
    const version: i32 = 1;
}
"#;

const FORMATTED: &str = r#"@import "dep.djinni"

# the kinds
my_enum = enum {
    option1;
    # inside
    option2;
}

my_record = record {
    id: i32;
    hash: map<string, list<set<i64>>>;
    other: another_record;
    const limit: i32 = 10;
    const name: string = "n";
    const on: bool = true;
} deriving (eq, ord)

my_interface = interface +j +c  {
    # a method
    nothing(value: i32);
    static more(first: string, second: i8): list<string>;
    const version: i32 = 1;
}

"#;

#[test]
fn a_text_is_formatted_in_the_fixed_layout() {
    assert_eq!(process(SOURCE.into()).unwrap(), FORMATTED);
    assert_eq!(LampFmt::new(SOURCE.into()).fmt().unwrap(), FORMATTED);
}

#[test]
fn the_formatted_text_parses_to_the_same_program() {
    let mut first = Parser::new(Lexer::new(SOURCE.into()));
    let program = first.parse_program().unwrap();
    assert!(first.errors().is_empty());
    let formatted = process(SOURCE.into()).unwrap();
    let mut second = Parser::new(Lexer::new(formatted.clone()));
    let again = second.parse_program().unwrap();
    assert!(second.errors().is_empty());
    assert_eq!(program.statements, again.statements);
    assert_eq!(process(formatted.clone()).unwrap(), formatted);
}

#[test]
fn a_block_of_definitions_is_written_on_one_line() {
    let text = "r = record { const v: t = { a = 1, b = \"x\" }; }";
    let expected = "r = record {\n    const v: t =  {\n        a = 1,b = \"x\",\n    };\n}\n\n";
    assert_eq!(process(text.into()).unwrap(), expected);
    assert_eq!(process(expected.into()).unwrap(), expected);
}

#[test]
fn the_empty_text_formats_to_the_empty_text() {
    assert_eq!(process("".into()).unwrap(), "");
    assert_eq!(process("x = y".into()).unwrap(), "");
    assert_eq!(process("e = enum { }".into()).unwrap(), "e = enum {\n}\n\n");
    assert_eq!(
        process("r = record { } deriving (ord)".into()).unwrap(),
        "r = record {\n} deriving (ord)\n\n"
    );
}

#[test]
fn a_text_with_a_parse_error_is_not_formatted() {
    let errors = process("e = enum { a; }\nr = record { f: map<i8>; }".into()).unwrap_err();
    assert_eq!(errors.len(), 1);
    assert_eq!(errors[0].expected, Token::Comma);
    assert_eq!(errors[0].actual, Token::Gt);
    assert_eq!(errors[0].position, 16);
    assert!(LampFmt::new("e = enum {".into()).fmt().is_err());
}
