use rusty_lamp::parser::lexer::Lexer;
use rusty_lamp::parser::token::{DataType, Token};

struct TokenTestCase {
    expected_token: Token,
    #[allow(dead_code)]
    expected_literal: String,
}

fn case(expected_token: Token, expected_literal: &str) -> TokenTestCase {
    TokenTestCase { expected_token, expected_literal: expected_literal.into() }
}

#[test]
fn test_next_token() {
    let input = r#"@  import  enum (){}<>,; list<i32> map<string, i64>;
                       # this is a test of a comment
                           string date set<f32> record interface = +c{};"#;

    let test_cases = vec![
        case(Token::AtSign, "@"),
        case(Token::Import, "import"),
        case(Token::Enum, "enum"),
        case(Token::LParen, "("),
        case(Token::RParen, ")"),
        case(Token::LBrace, "{"),
        case(Token::RBrace, "}"),
        case(Token::Lt, "<"),
        case(Token::Gt, ">"),
        case(Token::Comma, ","),
        case(Token::Semicolon, ";"),
        case(Token::Type(DataType::List, "list".into()), "list"),
        case(Token::Lt, "<"),
        case(Token::Type(DataType::Integer32, "i32".into()), "i32"),
        case(Token::Gt, ">"),
        case(Token::Type(DataType::MapOf, "map".into()), "map"),
        case(Token::Lt, "<"),
        case(Token::Type(DataType::String, "string".into()), "string"),
        case(Token::Comma, ","),
        case(Token::Type(DataType::Integer64, "i64".into()), "i64"),
        case(Token::Gt, ">"),
        case(Token::Semicolon, ";"),
        case(Token::Comment(" this is a test of a comment".into()), "# this is a test of a comment"),
        case(Token::Type(DataType::String, "string".into()), "string"),
        case(Token::Type(DataType::Date, "date".into()), "date"),
        case(Token::Type(DataType::SetOf, "set".into()), "set"),
        case(Token::Lt, "<"),
        case(Token::Type(DataType::Float32, "f32".into()), "f32"),
        case(Token::Gt, ">"),
        case(Token::Record, "record"),
        case(Token::Interface, "interface"),
        case(Token::Equal, "="),
        case(Token::CppInterface, "+c"),
        case(Token::LBrace, "{"),
        case(Token::RBrace, "}"),
        case(Token::Semicolon, ";"),
        case(Token::Eof, ""),
    ];

    let mut lexer = Lexer::new(input.into());

    for t in test_cases {
        let tok = lexer.next_token();
        assert!(
            tok == t.expected_token,
            "token did not match: {} != {}",
            tok.render(),
            t.expected_token.render()
        );
    }
}

fn all_tokens(input: &str) -> Vec<Token> {
    rusty_lamp::parser::lexer::lex(input.into())
}

#[test]
fn empty_text_is_end_of_file_for_ever() {
    let mut lexer = Lexer::new("".into());
    assert_eq!(lexer.next_token(), Token::Eof);
    assert_eq!(lexer.next_token(), Token::Eof);
    assert_eq!(lexer.next_token(), Token::Eof);
    let mut blank = Lexer::new(" \t\r\n ".into());
    assert_eq!(blank.next_token(), Token::Eof);
    assert_eq!(blank.next_token(), Token::Eof);
}

#[test]
fn lex_ends_with_one_end_of_file() {
    assert_eq!(all_tokens(""), vec![Token::Eof]);
    assert_eq!(
        all_tokens("a = enum { b; }"),
        vec![
            Token::Ident("a".into()),
            Token::Equal,
            Token::Enum,
            Token::LBrace,
            Token::Ident("b".into()),
            Token::Semicolon,
            Token::RBrace,
            Token::Eof,
        ]
    );
}

#[test]
fn lexing_twice_gives_the_same_tokens() {
    let text = "r = record { id: i32; } deriving (eq, ord) # done";
    assert_eq!(all_tokens(text), all_tokens(text));
}

#[test]
fn every_reserved_word_has_its_token() {
    assert_eq!(
        all_tokens("enum record interface import static const deriving true false eq ord"),
        vec![
            Token::Enum,
            Token::Record,
            Token::Interface,
            Token::Import,
            Token::Static,
            Token::Const,
            Token::Dervive,
            Token::True,
            Token::False,
            Token::Eq,
            Token::Ord,
            Token::Eof,
        ]
    );
}

#[test]
fn every_type_keyword_has_its_kind_and_spelling() {
    let kinds = vec![
        ("i8", DataType::Integer8),
        ("i16", DataType::Integer16),
        ("i32", DataType::Integer32),
        ("i64", DataType::Integer64),
        ("f32", DataType::Float32),
        ("f64", DataType::Float64),
        ("bool", DataType::Bool),
        ("string", DataType::String),
        ("binary", DataType::Binary),
        ("date", DataType::Date),
        ("optional", DataType::Optional),
        ("list", DataType::List),
        ("set", DataType::SetOf),
        ("map", DataType::MapOf),
    ];
    for (word, kind) in kinds {
        assert_eq!(all_tokens(word), vec![Token::Type(kind.clone(), word.into()), Token::Eof]);
        assert_eq!(DataType::new(word.into()), kind);
        assert_eq!(kind.render(), word);
    }
    assert_eq!(DataType::new("thing".into()), DataType::Object("thing".into()));
    assert_eq!(DataType::Object("thing".into()).render(), "object");
    assert_eq!(DataType::Nothing.render(), "none");
}

#[test]
fn target_tags_take_two_characters() {
    assert_eq!(
        all_tokens("+j +o +c"),
        vec![Token::JavaInterface, Token::ObjCInterface, Token::CppInterface, Token::Eof]
    );
}

#[test]
fn plus_before_another_character_is_illegal_and_leaves_it() {
    assert_eq!(all_tokens("+x"), vec![Token::Illegal, Token::Ident("x".into()), Token::Eof]);
    assert_eq!(all_tokens("+"), vec![Token::Illegal, Token::Eof]);
}

#[test]
fn an_unknown_character_is_illegal_and_passed_over() {
    assert_eq!(
        all_tokens("a $ b"),
        vec![Token::Ident("a".into()), Token::Illegal, Token::Ident("b".into()), Token::Eof]
    );
    assert_eq!(all_tokens("\0"), vec![Token::Illegal, Token::Eof]);
}

#[test]
fn strings_run_to_the_quote_or_to_the_end() {
    assert_eq!(
        all_tokens("\"dep.djinni\" x"),
        vec![Token::StringToken("dep.djinni".into()), Token::Ident("x".into()), Token::Eof]
    );
    assert_eq!(all_tokens("\"\""), vec![Token::StringToken("".into()), Token::Eof]);
    assert_eq!(all_tokens("\"open end"), vec![Token::StringToken("open end".into()), Token::Eof]);
}

#[test]
fn comments_run_to_the_line_break_or_to_the_end() {
    assert_eq!(
        all_tokens("# one\n# two\r\nx #three"),
        vec![
            Token::Comment(" one".into()),
            Token::Comment(" two".into()),
            Token::Ident("x".into()),
            Token::Comment("three".into()),
            Token::Eof,
        ]
    );
}

#[test]
fn numbers_take_digits_and_dots() {
    assert_eq!(
        all_tokens("1 23.5 1.2.3 7a"),
        vec![
            Token::Number("1".into()),
            Token::Number("23.5".into()),
            Token::Number("1.2.3".into()),
            Token::Number("7".into()),
            Token::Ident("a".into()),
            Token::Eof,
        ]
    );
}

#[test]
fn names_take_letters_digits_and_underscores() {
    assert_eq!(
        all_tokens("_a1 enum2 Enum my_record"),
        vec![
            Token::Ident("_a1".into()),
            Token::Ident("enum2".into()),
            Token::Ident("Enum".into()),
            Token::Ident("my_record".into()),
            Token::Eof,
        ]
    );
}

#[test]
fn tokens_are_shown_by_their_text() {
    assert_eq!(Token::Illegal.render(), "Illegal");
    assert_eq!(Token::Eof.render(), "EOF");
    assert_eq!(Token::Ident("x".into()).render(), "Ident(x)");
    assert_eq!(Token::Ident("x".into()).to_str(), "x");
    assert_eq!(Token::Comment(" c".into()).render(), "# c");
    assert_eq!(Token::StringToken("s".into()).render(), "s");
    assert_eq!(Token::Number("12".into()).render(), "12");
    assert_eq!(Token::Type(DataType::Date, "date".into()).render(), "date");
    assert_eq!(Token::Dervive.render(), "deriving");
    assert_eq!(Token::Dervive.to_str(), "deriving");
    assert_eq!(Token::CppInterface.render(), "+c");
    assert_eq!(Token::LBrace.render(), "{");
    assert_eq!(Token::Equal.to_str(), "=");
}

#[test]
fn same_compares_tokens_with_their_content() {
    assert!(Token::Ident("a".into()).same(&Token::Ident("a".into())));
    assert!(!Token::Ident("a".into()).same(&Token::Ident("b".into())));
    assert!(!Token::Ident("a".into()).same(&Token::StringToken("a".into())));
    assert!(Token::Type(DataType::List, "list".into()).same(&Token::Type(DataType::List, "list".into())));
    assert!(!Token::Type(DataType::List, "list".into()).same(&Token::Type(DataType::SetOf, "list".into())));
    assert!(Token::Eof.same(&Token::Eof));
    assert!(!Token::Eof.same(&Token::Illegal));
    let token = Token::Comment("text".into());
    assert_eq!(token.clone(), token);
}

#[test]
fn keywords_look_words_up() {
    let keywords = rusty_lamp::parser::keywords::Keywords::new();
    assert_eq!(keywords.lookup_ident(&"interface".to_string()), Token::Interface);
    assert_eq!(
        keywords.lookup_ident(&"f64".to_string()),
        Token::Type(DataType::Float64, "f64".into())
    );
    assert_eq!(keywords.lookup_ident(&"other".to_string()), Token::Ident("other".into()));
    assert_eq!(keywords.lookup_ident(&"".to_string()), Token::Ident("".into()));
}

fn spelling(token: &Token) -> String {
    match token {
        Token::Ident(s) | Token::Number(s) | Token::Type(_, s) => s.clone(),
        Token::StringToken(s) => format!("\"{}\"", s),
        Token::Comment(s) => format!("#{}", s),
        other => other.render(),
    }
}

#[test]
fn every_spelled_token_is_read_back() {
    let tokens = vec![
        Token::Import,
        Token::Ident("my_name".into()),
        Token::Ident("_".into()),
        Token::Enum,
        Token::Record,
        Token::Interface,
        Token::Colon,
        Token::Comment(" a remark, with = signs".into()),
        Token::Comment("".into()),
        Token::Semicolon,
        Token::Comma,
        Token::LBrace,
        Token::RBrace,
        Token::LParen,
        Token::RParen,
        Token::Lt,
        Token::Gt,
        Token::Equal,
        Token::StringToken("a string # with a sign".into()),
        Token::StringToken("".into()),
        Token::Number("42".into()),
        Token::Number("3.14".into()),
        Token::Type(DataType::Integer16, "i16".into()),
        Token::Type(DataType::Optional, "optional".into()),
        Token::True,
        Token::False,
        Token::AtSign,
        Token::Static,
        Token::Const,
        Token::Dervive,
        Token::Eq,
        Token::Ord,
        Token::JavaInterface,
        Token::ObjCInterface,
        Token::CppInterface,
    ];
    for token in tokens {
        assert_eq!(all_tokens(&spelling(&token)), vec![token.clone(), Token::Eof]);
    }
    let line: Vec<Token> = vec![Token::Ident("a".into()), Token::Colon, Token::Number("1".into())];
    let text: Vec<String> = line.iter().map(spelling).collect();
    let mut expected = line.clone();
    expected.push(Token::Eof);
    assert_eq!(all_tokens(&text.join(" ")), expected);
    assert_eq!(all_tokens(&text.join("\n\t ")), expected);
}

#[test]
fn reading_is_idempotent() {
    let text = r#"@import "a file" # remark
        x = record { a: map<string, list<i8>>; const c: f64 = 1.5; } deriving (eq, ord)
        y = interface +j +o +c { static f(p: x): bool; }"#;
    let tokens = all_tokens(text);
    assert!(!tokens.contains(&Token::Illegal));
    let front = &tokens[..tokens.len() - 1];
    let lines: Vec<String> = front.iter().map(|t| spelling(t) + "\n").collect();
    assert_eq!(all_tokens(&lines.concat()), tokens);
}
