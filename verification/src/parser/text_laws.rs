//! The lexer reads back the tokens of a formatted program.

use crate::parser::ast::{
    block_text, derive_text, interface_type_text, modifier_text, statement_text, type_text,
    DataTypeStatementView, DeriveType, FunctionModifier, InterfaceType, ParameterView,
    StatementView,
};
use crate::parser::djinni_fmt::{
    format_block, format_comment, format_const, format_derives, format_deriving, format_enum,
    format_enum_member, format_function, format_import, format_interface, format_parameter,
    format_parameters, format_program, format_record, format_record_member, format_return,
    format_statement, format_string, format_targets, spaces,
};
use crate::parser::keywords::lookup_word;
use crate::parser::lexer::{is_alphanumeric, is_digit, lex_spec, tokens_from};
use crate::parser::spelling::{
    ends_word, is_blank, is_quotable, is_remark, is_word, lemma_lex_blank, lemma_lex_comment,
    lemma_lex_empty, lemma_lex_number, lemma_lex_punctuation, lemma_lex_string, lemma_lex_tag,
    lemma_lex_word, lemma_reserved_words,
};
use crate::parser::token::{DataTypeView, TokenView};
use crate::parser::unparse::{
    are_derives, are_statements, block_tokens, derive_token, derives_tokens, deriving_tokens,
    is_name, is_parameter, is_program, is_statement, is_type, keyword, parameters_tokens,
    program_tokens, return_tokens, statement_tokens, target_token, targets_tokens, type_tokens,
    Place,
};
use vstd::prelude::*;

verus! {

/// The type keywords are words, and each stands for its kind and spelling.
pub proof fn lemma_type_keywords()
    ensures
        is_word("i8"@) && lookup_word("i8"@) == TokenView::Type(DataTypeView::Integer8, "i8"@),
        is_word("i16"@) && lookup_word("i16"@) == TokenView::Type(DataTypeView::Integer16, "i16"@),
        is_word("i32"@) && lookup_word("i32"@) == TokenView::Type(DataTypeView::Integer32, "i32"@),
        is_word("i64"@) && lookup_word("i64"@) == TokenView::Type(DataTypeView::Integer64, "i64"@),
        is_word("f32"@) && lookup_word("f32"@) == TokenView::Type(DataTypeView::Float32, "f32"@),
        is_word("f64"@) && lookup_word("f64"@) == TokenView::Type(DataTypeView::Float64, "f64"@),
        is_word("list"@) && lookup_word("list"@) == TokenView::Type(DataTypeView::List, "list"@),
        is_word("map"@) && lookup_word("map"@) == TokenView::Type(DataTypeView::MapOf, "map"@),
        is_word("set"@) && lookup_word("set"@) == TokenView::Type(DataTypeView::SetOf, "set"@),
        is_word("date"@) && lookup_word("date"@) == TokenView::Type(DataTypeView::Date, "date"@),
        is_word("binary"@) && lookup_word("binary"@) == TokenView::Type(
            DataTypeView::Binary,
            "binary"@,
        ),
        is_word("bool"@) && lookup_word("bool"@) == TokenView::Type(DataTypeView::Bool, "bool"@),
        is_word("string"@) && lookup_word("string"@) == TokenView::Type(
            DataTypeView::String,
            "string"@,
        ),
{
    reveal_strlit("import");
    reveal_strlit("enum");
    reveal_strlit("record");
    reveal_strlit("interface");
    reveal_strlit("true");
    reveal_strlit("false");
    reveal_strlit("static");
    reveal_strlit("const");
    reveal_strlit("deriving");
    reveal_strlit("eq");
    reveal_strlit("ord");
    reveal_strlit("i8");
    reveal_strlit("i16");
    reveal_strlit("i32");
    reveal_strlit("i64");
    reveal_strlit("f32");
    reveal_strlit("f64");
    reveal_strlit("list");
    reveal_strlit("map");
    reveal_strlit("set");
    reveal_strlit("date");
    reveal_strlit("binary");
    reveal_strlit("bool");
    reveal_strlit("optional");
    reveal_strlit("string");
    lemma_first_characters();
}

/// The first three characters of the reserved words and type keywords, as
/// far as they have them.
proof fn lemma_first_characters()
    ensures
        "import"@.len() == 6,
        "import"@[0] == 'i',
        "import"@[1] == 'm',
        "import"@[2] == 'p',
        "enum"@.len() == 4,
        "enum"@[0] == 'e',
        "enum"@[1] == 'n',
        "enum"@[2] == 'u',
        "record"@.len() == 6,
        "record"@[0] == 'r',
        "record"@[1] == 'e',
        "record"@[2] == 'c',
        "interface"@.len() == 9,
        "interface"@[0] == 'i',
        "interface"@[1] == 'n',
        "interface"@[2] == 't',
        "true"@.len() == 4,
        "true"@[0] == 't',
        "true"@[1] == 'r',
        "true"@[2] == 'u',
        "false"@.len() == 5,
        "false"@[0] == 'f',
        "false"@[1] == 'a',
        "false"@[2] == 'l',
        "static"@.len() == 6,
        "static"@[0] == 's',
        "static"@[1] == 't',
        "static"@[2] == 'a',
        "const"@.len() == 5,
        "const"@[0] == 'c',
        "const"@[1] == 'o',
        "const"@[2] == 'n',
        "deriving"@.len() == 8,
        "deriving"@[0] == 'd',
        "deriving"@[1] == 'e',
        "deriving"@[2] == 'r',
        "eq"@.len() == 2,
        "eq"@[0] == 'e',
        "eq"@[1] == 'q',
        "ord"@.len() == 3,
        "ord"@[0] == 'o',
        "ord"@[1] == 'r',
        "ord"@[2] == 'd',
        "i8"@.len() == 2,
        "i8"@[0] == 'i',
        "i8"@[1] == '8',
        "i16"@.len() == 3,
        "i16"@[0] == 'i',
        "i16"@[1] == '1',
        "i16"@[2] == '6',
        "i32"@.len() == 3,
        "i32"@[0] == 'i',
        "i32"@[1] == '3',
        "i32"@[2] == '2',
        "i64"@.len() == 3,
        "i64"@[0] == 'i',
        "i64"@[1] == '6',
        "i64"@[2] == '4',
        "f32"@.len() == 3,
        "f32"@[0] == 'f',
        "f32"@[1] == '3',
        "f32"@[2] == '2',
        "f64"@.len() == 3,
        "f64"@[0] == 'f',
        "f64"@[1] == '6',
        "f64"@[2] == '4',
        "list"@.len() == 4,
        "list"@[0] == 'l',
        "list"@[1] == 'i',
        "list"@[2] == 's',
        "map"@.len() == 3,
        "map"@[0] == 'm',
        "map"@[1] == 'a',
        "map"@[2] == 'p',
        "set"@.len() == 3,
        "set"@[0] == 's',
        "set"@[1] == 'e',
        "set"@[2] == 't',
        "date"@.len() == 4,
        "date"@[0] == 'd',
        "date"@[1] == 'a',
        "date"@[2] == 't',
        "binary"@.len() == 6,
        "binary"@[0] == 'b',
        "binary"@[1] == 'i',
        "binary"@[2] == 'n',
        "bool"@.len() == 4,
        "bool"@[0] == 'b',
        "bool"@[1] == 'o',
        "bool"@[2] == 'o',
        "optional"@.len() == 8,
        "optional"@[0] == 'o',
        "optional"@[1] == 'p',
        "optional"@[2] == 't',
        "string"@.len() == 6,
        "string"@[0] == 's',
        "string"@[1] == 't',
        "string"@[2] == 'r',
{
    reveal_strlit("import");
    reveal_strlit("enum");
    reveal_strlit("record");
    reveal_strlit("interface");
    reveal_strlit("true");
    reveal_strlit("false");
    reveal_strlit("static");
    reveal_strlit("const");
    reveal_strlit("deriving");
    reveal_strlit("eq");
    reveal_strlit("ord");
    reveal_strlit("i8");
    reveal_strlit("i16");
    reveal_strlit("i32");
    reveal_strlit("i64");
    reveal_strlit("f32");
    reveal_strlit("f64");
    reveal_strlit("list");
    reveal_strlit("map");
    reveal_strlit("set");
    reveal_strlit("date");
    reveal_strlit("binary");
    reveal_strlit("bool");
    reveal_strlit("optional");
    reveal_strlit("string");
}

/// The head of an enum behind its name.
pub proof fn lemma_lit_open_enum(b: Seq<char>)
    ensures
        tokens_from(" = enum {\n"@ + b, 0)
            == seq![TokenView::Equal, TokenView::Enum, TokenView::LBrace] + tokens_from(b, 0),
{
    reveal_strlit(" = enum {\n");
    lemma_reserved_words();
    let r7 = b;
    let r6 = seq!['\n'] + r7;
    let r5 = seq!['{'] + r6;
    let r4 = seq![' '] + r5;
    let r3 = "enum"@ + r4;
    let r2 = seq![' '] + r3;
    let r1 = seq!['='] + r2;
    let r0 = seq![' '] + r1;
    reveal_strlit("enum");
    assert(" = enum {\n"@ + b =~= r0);
    lemma_lex_blank(seq!['\n'], r7);
    lemma_lex_punctuation('{', r6);
    lemma_lex_blank(seq![' '], r5);
    lemma_lex_word("enum"@, r4);
    lemma_lex_blank(seq![' '], r3);
    lemma_lex_punctuation('=', r2);
    lemma_lex_blank(seq![' '], r1);
    assert(tokens_from(r0, 0)
        =~= seq![TokenView::Equal, TokenView::Enum, TokenView::LBrace] + tokens_from(b, 0));
}

/// The head of a record behind its name.
pub proof fn lemma_lit_open_record(b: Seq<char>)
    ensures
        tokens_from(" = record {\n"@ + b, 0)
            == seq![TokenView::Equal, TokenView::Record, TokenView::LBrace] + tokens_from(b, 0),
{
    reveal_strlit(" = record {\n");
    lemma_reserved_words();
    let r7 = b;
    let r6 = seq!['\n'] + r7;
    let r5 = seq!['{'] + r6;
    let r4 = seq![' '] + r5;
    let r3 = "record"@ + r4;
    let r2 = seq![' '] + r3;
    let r1 = seq!['='] + r2;
    let r0 = seq![' '] + r1;
    reveal_strlit("record");
    assert(" = record {\n"@ + b =~= r0);
    lemma_lex_blank(seq!['\n'], r7);
    lemma_lex_punctuation('{', r6);
    lemma_lex_blank(seq![' '], r5);
    lemma_lex_word("record"@, r4);
    lemma_lex_blank(seq![' '], r3);
    lemma_lex_punctuation('=', r2);
    lemma_lex_blank(seq![' '], r1);
    assert(tokens_from(r0, 0)
        =~= seq![TokenView::Equal, TokenView::Record, TokenView::LBrace] + tokens_from(b, 0));
}

/// The head of an interface behind its name.
pub proof fn lemma_lit_interface(b: Seq<char>)
    ensures
        tokens_from(" = interface "@ + b, 0)
            == seq![TokenView::Equal, TokenView::Interface] + tokens_from(b, 0),
{
    reveal_strlit(" = interface ");
    lemma_reserved_words();
    let r5 = b;
    let r4 = seq![' '] + r5;
    let r3 = "interface"@ + r4;
    let r2 = seq![' '] + r3;
    let r1 = seq!['='] + r2;
    let r0 = seq![' '] + r1;
    reveal_strlit("interface");
    assert(" = interface "@ + b =~= r0);
    lemma_lex_blank(seq![' '], r5);
    lemma_lex_word("interface"@, r4);
    lemma_lex_blank(seq![' '], r3);
    lemma_lex_punctuation('=', r2);
    lemma_lex_blank(seq![' '], r1);
    assert(tokens_from(r0, 0) =~= seq![TokenView::Equal, TokenView::Interface] + tokens_from(b, 0));
}

/// The start of a body.
pub proof fn lemma_lit_open(b: Seq<char>)
    ensures
        tokens_from(" {\n"@ + b, 0) == seq![TokenView::LBrace] + tokens_from(b, 0),
{
    reveal_strlit(" {\n");
    lemma_reserved_words();
    let r3 = b;
    let r2 = seq!['\n'] + r3;
    let r1 = seq!['{'] + r2;
    let r0 = seq![' '] + r1;
    assert(" {\n"@ + b =~= r0);
    lemma_lex_blank(seq!['\n'], r3);
    lemma_lex_punctuation('{', r2);
    lemma_lex_blank(seq![' '], r1);
    assert(tokens_from(r0, 0) =~= seq![TokenView::LBrace] + tokens_from(b, 0));
}

/// The end of a body on a line of its own.
pub proof fn lemma_lit_close_line(b: Seq<char>)
    ensures
        tokens_from("}\n"@ + b, 0) == seq![TokenView::RBrace] + tokens_from(b, 0),
{
    reveal_strlit("}\n");
    lemma_reserved_words();
    let r2 = b;
    let r1 = seq!['\n'] + r2;
    let r0 = seq!['}'] + r1;
    assert("}\n"@ + b =~= r0);
    lemma_lex_blank(seq!['\n'], r2);
    lemma_lex_punctuation('}', r1);
    assert(tokens_from(r0, 0) =~= seq![TokenView::RBrace] + tokens_from(b, 0));
}

/// The end of a body.
pub proof fn lemma_lit_close(b: Seq<char>)
    ensures
        tokens_from("}"@ + b, 0) == seq![TokenView::RBrace] + tokens_from(b, 0),
{
    reveal_strlit("}");
    lemma_reserved_words();
    let r1 = b;
    let r0 = seq!['}'] + r1;
    assert("}"@ + b =~= r0);
    lemma_lex_punctuation('}', r1);
    assert(tokens_from(r0, 0) =~= seq![TokenView::RBrace] + tokens_from(b, 0));
}

/// A line break.
pub proof fn lemma_lit_newline(b: Seq<char>)
    ensures
        tokens_from("\n"@ + b, 0) == tokens_from(b, 0),
{
    reveal_strlit("\n");
    lemma_reserved_words();
    let r1 = b;
    let r0 = seq!['\n'] + r1;
    assert("\n"@ + b =~= r0);
    lemma_lex_blank(seq!['\n'], r1);
}

/// The end of a member.
pub proof fn lemma_lit_end_line(b: Seq<char>)
    ensures
        tokens_from(";\n"@ + b, 0) == seq![TokenView::Semicolon] + tokens_from(b, 0),
{
    reveal_strlit(";\n");
    lemma_reserved_words();
    let r2 = b;
    let r1 = seq!['\n'] + r2;
    let r0 = seq![';'] + r1;
    assert(";\n"@ + b =~= r0);
    lemma_lex_blank(seq!['\n'], r2);
    lemma_lex_punctuation(';', r1);
    assert(tokens_from(r0, 0) =~= seq![TokenView::Semicolon] + tokens_from(b, 0));
}

/// The colon before a type.
pub proof fn lemma_lit_colon(b: Seq<char>)
    ensures
        tokens_from(": "@ + b, 0) == seq![TokenView::Colon] + tokens_from(b, 0),
{
    reveal_strlit(": ");
    lemma_reserved_words();
    let r2 = b;
    let r1 = seq![' '] + r2;
    let r0 = seq![':'] + r1;
    assert(": "@ + b =~= r0);
    lemma_lex_blank(seq![' '], r2);
    lemma_lex_punctuation(':', r1);
    assert(tokens_from(r0, 0) =~= seq![TokenView::Colon] + tokens_from(b, 0));
}

/// The comma between two items.
pub proof fn lemma_lit_comma(b: Seq<char>)
    ensures
        tokens_from(", "@ + b, 0) == seq![TokenView::Comma] + tokens_from(b, 0),
{
    reveal_strlit(", ");
    lemma_reserved_words();
    let r2 = b;
    let r1 = seq![' '] + r2;
    let r0 = seq![','] + r1;
    assert(", "@ + b =~= r0);
    lemma_lex_blank(seq![' '], r2);
    lemma_lex_punctuation(',', r1);
    assert(tokens_from(r0, 0) =~= seq![TokenView::Comma] + tokens_from(b, 0));
}

/// The comma behind a definition.
pub proof fn lemma_lit_comma_alone(b: Seq<char>)
    ensures
        tokens_from(","@ + b, 0) == seq![TokenView::Comma] + tokens_from(b, 0),
{
    reveal_strlit(",");
    lemma_reserved_words();
    let r1 = b;
    let r0 = seq![','] + r1;
    assert(","@ + b =~= r0);
    lemma_lex_punctuation(',', r1);
    assert(tokens_from(r0, 0) =~= seq![TokenView::Comma] + tokens_from(b, 0));
}

/// The start of the parameters.
pub proof fn lemma_lit_lparen(b: Seq<char>)
    ensures
        tokens_from("("@ + b, 0) == seq![TokenView::LParen] + tokens_from(b, 0),
{
    reveal_strlit("(");
    lemma_reserved_words();
    let r1 = b;
    let r0 = seq!['('] + r1;
    assert("("@ + b =~= r0);
    lemma_lex_punctuation('(', r1);
    assert(tokens_from(r0, 0) =~= seq![TokenView::LParen] + tokens_from(b, 0));
}

/// The end of the parameters.
pub proof fn lemma_lit_rparen(b: Seq<char>)
    ensures
        tokens_from(")"@ + b, 0) == seq![TokenView::RParen] + tokens_from(b, 0),
{
    reveal_strlit(")");
    lemma_reserved_words();
    let r1 = b;
    let r0 = seq![')'] + r1;
    assert(")"@ + b =~= r0);
    lemma_lex_punctuation(')', r1);
    assert(tokens_from(r0, 0) =~= seq![TokenView::RParen] + tokens_from(b, 0));
}

/// The word before a constant.
pub proof fn lemma_lit_const(b: Seq<char>)
    ensures
        tokens_from("const "@ + b, 0) == seq![TokenView::Const] + tokens_from(b, 0),
{
    reveal_strlit("const ");
    lemma_reserved_words();
    let r2 = b;
    let r1 = seq![' '] + r2;
    let r0 = "const"@ + r1;
    reveal_strlit("const");
    assert("const "@ + b =~= r0);
    lemma_lex_blank(seq![' '], r2);
    lemma_lex_word("const"@, r1);
    assert(tokens_from(r0, 0) =~= seq![TokenView::Const] + tokens_from(b, 0));
}

/// The sign before a value.
pub proof fn lemma_lit_equal(b: Seq<char>)
    ensures
        tokens_from(" = "@ + b, 0) == seq![TokenView::Equal] + tokens_from(b, 0),
{
    reveal_strlit(" = ");
    lemma_reserved_words();
    let r3 = b;
    let r2 = seq![' '] + r3;
    let r1 = seq!['='] + r2;
    let r0 = seq![' '] + r1;
    assert(" = "@ + b =~= r0);
    lemma_lex_blank(seq![' '], r3);
    lemma_lex_punctuation('=', r2);
    lemma_lex_blank(seq![' '], r1);
    assert(tokens_from(r0, 0) =~= seq![TokenView::Equal] + tokens_from(b, 0));
}

/// The start of a `deriving` clause.
pub proof fn lemma_lit_deriving(b: Seq<char>)
    ensures
        tokens_from(" deriving ("@ + b, 0)
            == seq![TokenView::Dervive, TokenView::LParen] + tokens_from(b, 0),
{
    reveal_strlit(" deriving (");
    lemma_reserved_words();
    let r4 = b;
    let r3 = seq!['('] + r4;
    let r2 = seq![' '] + r3;
    let r1 = "deriving"@ + r2;
    let r0 = seq![' '] + r1;
    reveal_strlit("deriving");
    assert(" deriving ("@ + b =~= r0);
    lemma_lex_punctuation('(', r4);
    lemma_lex_blank(seq![' '], r3);
    lemma_lex_word("deriving"@, r2);
    lemma_lex_blank(seq![' '], r1);
    assert(tokens_from(r0, 0) =~= seq![TokenView::Dervive, TokenView::LParen] + tokens_from(b, 0));
}

/// The end of a `deriving` clause.
pub proof fn lemma_lit_close_deriving(b: Seq<char>)
    ensures
        tokens_from(")\n"@ + b, 0) == seq![TokenView::RParen] + tokens_from(b, 0),
{
    reveal_strlit(")\n");
    lemma_reserved_words();
    let r2 = b;
    let r1 = seq!['\n'] + r2;
    let r0 = seq![')'] + r1;
    assert(")\n"@ + b =~= r0);
    lemma_lex_blank(seq!['\n'], r2);
    lemma_lex_punctuation(')', r1);
    assert(tokens_from(r0, 0) =~= seq![TokenView::RParen] + tokens_from(b, 0));
}

/// The value `true`.
pub proof fn lemma_lit_true(b: Seq<char>)
    requires
        ends_word(b),
    ensures
        tokens_from("true"@ + b, 0) == seq![TokenView::True] + tokens_from(b, 0),
{
    reveal_strlit("true");
    lemma_reserved_words();
    let r1 = b;
    let r0 = "true"@ + r1;
    assert("true"@ + b =~= r0);
    lemma_lex_word("true"@, r1);
    assert(tokens_from(r0, 0) =~= seq![TokenView::True] + tokens_from(b, 0));
}

/// The value `false`.
pub proof fn lemma_lit_false(b: Seq<char>)
    requires
        ends_word(b),
    ensures
        tokens_from("false"@ + b, 0) == seq![TokenView::False] + tokens_from(b, 0),
{
    reveal_strlit("false");
    lemma_reserved_words();
    let r1 = b;
    let r0 = "false"@ + r1;
    assert("false"@ + b =~= r0);
    lemma_lex_word("false"@, r1);
    assert(tokens_from(r0, 0) =~= seq![TokenView::False] + tokens_from(b, 0));
}

/// The derive `eq`.
pub proof fn lemma_lit_eq(b: Seq<char>)
    requires
        ends_word(b),
    ensures
        tokens_from("eq"@ + b, 0) == seq![TokenView::Eq] + tokens_from(b, 0),
{
    reveal_strlit("eq");
    lemma_reserved_words();
    let r1 = b;
    let r0 = "eq"@ + r1;
    assert("eq"@ + b =~= r0);
    lemma_lex_word("eq"@, r1);
    assert(tokens_from(r0, 0) =~= seq![TokenView::Eq] + tokens_from(b, 0));
}

/// The derive `ord`.
pub proof fn lemma_lit_ord(b: Seq<char>)
    requires
        ends_word(b),
    ensures
        tokens_from("ord"@ + b, 0) == seq![TokenView::Ord] + tokens_from(b, 0),
{
    reveal_strlit("ord");
    lemma_reserved_words();
    let r1 = b;
    let r0 = "ord"@ + r1;
    assert("ord"@ + b =~= r0);
    lemma_lex_word("ord"@, r1);
    assert(tokens_from(r0, 0) =~= seq![TokenView::Ord] + tokens_from(b, 0));
}

/// The tag of Java.
pub proof fn lemma_lit_java(b: Seq<char>)
    ensures
        tokens_from("+j"@ + b, 0) == seq![TokenView::JavaInterface] + tokens_from(b, 0),
{
    reveal_strlit("+j");
    lemma_reserved_words();
    let r1 = b;
    let r0 = seq!['+', 'j'] + r1;
    assert("+j"@ + b =~= r0);
    lemma_lex_tag('j', r1);
    assert(tokens_from(r0, 0) =~= seq![TokenView::JavaInterface] + tokens_from(b, 0));
}

/// The tag of Objective-C.
pub proof fn lemma_lit_objc(b: Seq<char>)
    ensures
        tokens_from("+o"@ + b, 0) == seq![TokenView::ObjCInterface] + tokens_from(b, 0),
{
    reveal_strlit("+o");
    lemma_reserved_words();
    let r1 = b;
    let r0 = seq!['+', 'o'] + r1;
    assert("+o"@ + b =~= r0);
    lemma_lex_tag('o', r1);
    assert(tokens_from(r0, 0) =~= seq![TokenView::ObjCInterface] + tokens_from(b, 0));
}

/// The tag of C++.
pub proof fn lemma_lit_cpp(b: Seq<char>)
    ensures
        tokens_from("+c"@ + b, 0) == seq![TokenView::CppInterface] + tokens_from(b, 0),
{
    reveal_strlit("+c");
    lemma_reserved_words();
    let r1 = b;
    let r0 = seq!['+', 'c'] + r1;
    assert("+c"@ + b =~= r0);
    lemma_lex_tag('c', r1);
    assert(tokens_from(r0, 0) =~= seq![TokenView::CppInterface] + tokens_from(b, 0));
}

/// A space.
pub proof fn lemma_lit_space(b: Seq<char>)
    ensures
        tokens_from(" "@ + b, 0) == tokens_from(b, 0),
{
    reveal_strlit(" ");
    lemma_reserved_words();
    let r1 = b;
    let r0 = seq![' '] + r1;
    assert(" "@ + b =~= r0);
    lemma_lex_blank(seq![' '], r1);
}

/// The modifier `static`.
pub proof fn lemma_lit_static(b: Seq<char>)
    requires
        ends_word(b),
    ensures
        tokens_from("static"@ + b, 0) == seq![TokenView::Static] + tokens_from(b, 0),
{
    reveal_strlit("static");
    lemma_reserved_words();
    let r1 = b;
    let r0 = "static"@ + r1;
    assert("static"@ + b =~= r0);
    lemma_lex_word("static"@, r1);
    assert(tokens_from(r0, 0) =~= seq![TokenView::Static] + tokens_from(b, 0));
}

/// The head of a set.
pub proof fn lemma_lit_set(b: Seq<char>)
    ensures
        tokens_from("set<"@ + b, 0)
            == seq![TokenView::Type(DataTypeView::SetOf, "set"@), TokenView::Lt] + tokens_from(b,
                0),
{
    reveal_strlit("set<");
    lemma_reserved_words();
    lemma_type_keywords();
    let r2 = b;
    let r1 = seq!['<'] + r2;
    let r0 = "set"@ + r1;
    reveal_strlit("set");
    assert("set<"@ + b =~= r0);
    lemma_lex_punctuation('<', r2);
    lemma_lex_word("set"@, r1);
    assert(tokens_from(r0, 0)
        =~= seq![TokenView::Type(DataTypeView::SetOf, "set"@), TokenView::Lt] + tokens_from(b, 0));
}

/// The head of a list.
pub proof fn lemma_lit_list(b: Seq<char>)
    ensures
        tokens_from("list<"@ + b, 0)
            == seq![TokenView::Type(DataTypeView::List, "list"@), TokenView::Lt] + tokens_from(b,
                0),
{
    reveal_strlit("list<");
    lemma_reserved_words();
    lemma_type_keywords();
    let r2 = b;
    let r1 = seq!['<'] + r2;
    let r0 = "list"@ + r1;
    reveal_strlit("list");
    assert("list<"@ + b =~= r0);
    lemma_lex_punctuation('<', r2);
    lemma_lex_word("list"@, r1);
    assert(tokens_from(r0, 0)
        =~= seq![TokenView::Type(DataTypeView::List, "list"@), TokenView::Lt] + tokens_from(b, 0));
}

/// The head of a map.
pub proof fn lemma_lit_map(b: Seq<char>)
    ensures
        tokens_from("map<"@ + b, 0)
            == seq![TokenView::Type(DataTypeView::MapOf, "map"@), TokenView::Lt] + tokens_from(b,
                0),
{
    reveal_strlit("map<");
    lemma_reserved_words();
    lemma_type_keywords();
    let r2 = b;
    let r1 = seq!['<'] + r2;
    let r0 = "map"@ + r1;
    reveal_strlit("map");
    assert("map<"@ + b =~= r0);
    lemma_lex_punctuation('<', r2);
    lemma_lex_word("map"@, r1);
    assert(tokens_from(r0, 0)
        =~= seq![TokenView::Type(DataTypeView::MapOf, "map"@), TokenView::Lt] + tokens_from(b, 0));
}

/// The end of the type arguments.
pub proof fn lemma_lit_gt(b: Seq<char>)
    ensures
        tokens_from(">"@ + b, 0) == seq![TokenView::Gt] + tokens_from(b, 0),
{
    reveal_strlit(">");
    lemma_reserved_words();
    let r1 = b;
    let r0 = seq!['>'] + r1;
    assert(">"@ + b =~= r0);
    lemma_lex_punctuation('>', r1);
    assert(tokens_from(r0, 0) =~= seq![TokenView::Gt] + tokens_from(b, 0));
}

/// The start of a block of definitions in a block.
pub proof fn lemma_lit_open_block(b: Seq<char>)
    ensures
        tokens_from("{ "@ + b, 0) == seq![TokenView::LBrace] + tokens_from(b, 0),
{
    reveal_strlit("{ ");
    lemma_reserved_words();
    let r2 = b;
    let r1 = seq![' '] + r2;
    let r0 = seq!['{'] + r1;
    assert("{ "@ + b =~= r0);
    lemma_lex_blank(seq![' '], r2);
    lemma_lex_punctuation('{', r1);
    assert(tokens_from(r0, 0) =~= seq![TokenView::LBrace] + tokens_from(b, 0));
}

/// The end of a block of definitions in a block.
pub proof fn lemma_lit_close_block(b: Seq<char>)
    ensures
        tokens_from(" }"@ + b, 0) == seq![TokenView::RBrace] + tokens_from(b, 0),
{
    reveal_strlit(" }");
    lemma_reserved_words();
    let r2 = b;
    let r1 = seq!['}'] + r2;
    let r0 = seq![' '] + r1;
    assert(" }"@ + b =~= r0);
    lemma_lex_punctuation('}', r2);
    lemma_lex_blank(seq![' '], r1);
    assert(tokens_from(r0, 0) =~= seq![TokenView::RBrace] + tokens_from(b, 0));
}

/// The type keyword `string`.
pub proof fn lemma_lit_string(b: Seq<char>)
    requires
        ends_word(b),
    ensures
        tokens_from("string"@ + b, 0)
            == seq![TokenView::Type(DataTypeView::String, "string"@)] + tokens_from(b, 0),
{
    reveal_strlit("string");
    lemma_reserved_words();
    lemma_type_keywords();
    let r1 = b;
    let r0 = "string"@ + r1;
    assert("string"@ + b =~= r0);
    lemma_lex_word("string"@, r1);
    assert(tokens_from(r0, 0)
        =~= seq![TokenView::Type(DataTypeView::String, "string"@)] + tokens_from(b, 0));
}

/// The type keyword `i8`.
pub proof fn lemma_lit_i8(b: Seq<char>)
    requires
        ends_word(b),
    ensures
        tokens_from("i8"@ + b, 0)
            == seq![TokenView::Type(DataTypeView::Integer8, "i8"@)] + tokens_from(b, 0),
{
    reveal_strlit("i8");
    lemma_reserved_words();
    lemma_type_keywords();
    let r1 = b;
    let r0 = "i8"@ + r1;
    assert("i8"@ + b =~= r0);
    lemma_lex_word("i8"@, r1);
    assert(tokens_from(r0, 0)
        =~= seq![TokenView::Type(DataTypeView::Integer8, "i8"@)] + tokens_from(b, 0));
}

/// The type keyword `i16`.
pub proof fn lemma_lit_i16(b: Seq<char>)
    requires
        ends_word(b),
    ensures
        tokens_from("i16"@ + b, 0)
            == seq![TokenView::Type(DataTypeView::Integer16, "i16"@)] + tokens_from(b, 0),
{
    reveal_strlit("i16");
    lemma_reserved_words();
    lemma_type_keywords();
    let r1 = b;
    let r0 = "i16"@ + r1;
    assert("i16"@ + b =~= r0);
    lemma_lex_word("i16"@, r1);
    assert(tokens_from(r0, 0)
        =~= seq![TokenView::Type(DataTypeView::Integer16, "i16"@)] + tokens_from(b, 0));
}

/// The type keyword `i32`.
pub proof fn lemma_lit_i32(b: Seq<char>)
    requires
        ends_word(b),
    ensures
        tokens_from("i32"@ + b, 0)
            == seq![TokenView::Type(DataTypeView::Integer32, "i32"@)] + tokens_from(b, 0),
{
    reveal_strlit("i32");
    lemma_reserved_words();
    lemma_type_keywords();
    let r1 = b;
    let r0 = "i32"@ + r1;
    assert("i32"@ + b =~= r0);
    lemma_lex_word("i32"@, r1);
    assert(tokens_from(r0, 0)
        =~= seq![TokenView::Type(DataTypeView::Integer32, "i32"@)] + tokens_from(b, 0));
}

/// The type keyword `i64`.
pub proof fn lemma_lit_i64(b: Seq<char>)
    requires
        ends_word(b),
    ensures
        tokens_from("i64"@ + b, 0)
            == seq![TokenView::Type(DataTypeView::Integer64, "i64"@)] + tokens_from(b, 0),
{
    reveal_strlit("i64");
    lemma_reserved_words();
    lemma_type_keywords();
    let r1 = b;
    let r0 = "i64"@ + r1;
    assert("i64"@ + b =~= r0);
    lemma_lex_word("i64"@, r1);
    assert(tokens_from(r0, 0)
        =~= seq![TokenView::Type(DataTypeView::Integer64, "i64"@)] + tokens_from(b, 0));
}

/// The type keyword `f32`.
pub proof fn lemma_lit_f32(b: Seq<char>)
    requires
        ends_word(b),
    ensures
        tokens_from("f32"@ + b, 0)
            == seq![TokenView::Type(DataTypeView::Float32, "f32"@)] + tokens_from(b, 0),
{
    reveal_strlit("f32");
    lemma_reserved_words();
    lemma_type_keywords();
    let r1 = b;
    let r0 = "f32"@ + r1;
    assert("f32"@ + b =~= r0);
    lemma_lex_word("f32"@, r1);
    assert(tokens_from(r0, 0)
        =~= seq![TokenView::Type(DataTypeView::Float32, "f32"@)] + tokens_from(b, 0));
}

/// The type keyword `f64`.
pub proof fn lemma_lit_f64(b: Seq<char>)
    requires
        ends_word(b),
    ensures
        tokens_from("f64"@ + b, 0)
            == seq![TokenView::Type(DataTypeView::Float64, "f64"@)] + tokens_from(b, 0),
{
    reveal_strlit("f64");
    lemma_reserved_words();
    lemma_type_keywords();
    let r1 = b;
    let r0 = "f64"@ + r1;
    assert("f64"@ + b =~= r0);
    lemma_lex_word("f64"@, r1);
    assert(tokens_from(r0, 0)
        =~= seq![TokenView::Type(DataTypeView::Float64, "f64"@)] + tokens_from(b, 0));
}

/// The type keyword `binary`.
pub proof fn lemma_lit_binary(b: Seq<char>)
    requires
        ends_word(b),
    ensures
        tokens_from("binary"@ + b, 0)
            == seq![TokenView::Type(DataTypeView::Binary, "binary"@)] + tokens_from(b, 0),
{
    reveal_strlit("binary");
    lemma_reserved_words();
    lemma_type_keywords();
    let r1 = b;
    let r0 = "binary"@ + r1;
    assert("binary"@ + b =~= r0);
    lemma_lex_word("binary"@, r1);
    assert(tokens_from(r0, 0)
        =~= seq![TokenView::Type(DataTypeView::Binary, "binary"@)] + tokens_from(b, 0));
}

/// The type keyword `date`.
pub proof fn lemma_lit_date(b: Seq<char>)
    requires
        ends_word(b),
    ensures
        tokens_from("date"@ + b, 0)
            == seq![TokenView::Type(DataTypeView::Date, "date"@)] + tokens_from(b, 0),
{
    reveal_strlit("date");
    lemma_reserved_words();
    lemma_type_keywords();
    let r1 = b;
    let r0 = "date"@ + r1;
    assert("date"@ + b =~= r0);
    lemma_lex_word("date"@, r1);
    assert(tokens_from(r0, 0)
        =~= seq![TokenView::Type(DataTypeView::Date, "date"@)] + tokens_from(b, 0));
}

/// The type keyword `bool`.
pub proof fn lemma_lit_bool(b: Seq<char>)
    requires
        ends_word(b),
    ensures
        tokens_from("bool"@ + b, 0)
            == seq![TokenView::Type(DataTypeView::Bool, "bool"@)] + tokens_from(b, 0),
{
    reveal_strlit("bool");
    lemma_reserved_words();
    lemma_type_keywords();
    let r1 = b;
    let r0 = "bool"@ + r1;
    assert("bool"@ + b =~= r0);
    lemma_lex_word("bool"@, r1);
    assert(tokens_from(r0, 0)
        =~= seq![TokenView::Type(DataTypeView::Bool, "bool"@)] + tokens_from(b, 0));
}

/// The indentation is whitespace.
pub proof fn lemma_spaces_blank(depth: nat)
    ensures
        is_blank(spaces(depth)),
    decreases depth,
{
    reveal_strlit("    ");
    if depth > 0 {
        lemma_spaces_blank((depth - 1) as nat);
        let inner = spaces((depth - 1) as nat);
        let all = spaces(depth);
        assert forall|k: int| 0 <= k < all.len() implies crate::parser::lexer::is_whitespace(
            #[trigger] all[k],
        ) by {
            if k < inner.len() {
                assert(all[k] == inner[k]);
            } else {
                assert(all[k] == "    "@[k - inner.len()]);
            }
        }
    }
}

/// A name is read as its token, if what follows cannot belong to it.
pub proof fn lemma_lex_name(name: Seq<char>, b: Seq<char>)
    requires
        is_name(name),
        ends_word(b),
    ensures
        tokens_from(name + b, 0) == seq![TokenView::Ident(name)] + tokens_from(b, 0),
{
    lemma_lex_word(name, b);
}

/// A text that starts with a character that cannot stand in a word or a
/// number ends both.
pub open spec fn ends_all(b: Seq<char>) -> bool {
    b.len() > 0 && !is_alphanumeric(b[0]) && !is_digit(b[0])
}

/// A set is read as its tokens if its argument is.
proof fn lemma_lex_set_of(inner: Seq<char>, tokens: Seq<TokenView>, b: Seq<char>)
    requires
        tokens_from(inner + (">"@ + b), 0) == tokens + tokens_from(">"@ + b, 0),
    ensures
        tokens_from("set<"@ + inner + ">"@ + b, 0) == keyword(DataTypeView::SetOf, "set"@) + seq![
            TokenView::Lt,
        ] + tokens + seq![TokenView::Gt] + tokens_from(b, 0),
{
    let r2 = ">"@ + b;
    let r1 = inner + r2;
    let r0 = "set<"@ + r1;
    assert("set<"@ + inner + ">"@ + b =~= r0);
    lemma_lit_gt(b);
    lemma_lit_set(r1);
    assert(tokens_from(r0, 0) =~= keyword(DataTypeView::SetOf, "set"@) + seq![TokenView::Lt]
        + tokens + seq![TokenView::Gt] + tokens_from(b, 0));
}

/// A list is read as its tokens if its argument is.
proof fn lemma_lex_list_of(inner: Seq<char>, tokens: Seq<TokenView>, b: Seq<char>)
    requires
        tokens_from(inner + (">"@ + b), 0) == tokens + tokens_from(">"@ + b, 0),
    ensures
        tokens_from("list<"@ + inner + ">"@ + b, 0) == keyword(DataTypeView::List, "list"@)
            + seq![TokenView::Lt] + tokens + seq![TokenView::Gt] + tokens_from(b, 0),
{
    let r2 = ">"@ + b;
    let r1 = inner + r2;
    let r0 = "list<"@ + r1;
    assert("list<"@ + inner + ">"@ + b =~= r0);
    lemma_lit_gt(b);
    lemma_lit_list(r1);
    assert(tokens_from(r0, 0) =~= keyword(DataTypeView::List, "list"@) + seq![TokenView::Lt]
        + tokens + seq![TokenView::Gt] + tokens_from(b, 0));
}

/// A map is read as its tokens if its two arguments are.
proof fn lemma_lex_map_of(
    key: Seq<char>,
    key_tokens: Seq<TokenView>,
    value: Seq<char>,
    value_tokens: Seq<TokenView>,
    b: Seq<char>,
)
    requires
        tokens_from(value + (">"@ + b), 0) == value_tokens + tokens_from(">"@ + b, 0),
        tokens_from(key + (", "@ + (value + (">"@ + b))), 0) == key_tokens + tokens_from(
            ", "@ + (value + (">"@ + b)),
            0,
        ),
    ensures
        tokens_from("map<"@ + key + ", "@ + value + ">"@ + b, 0) == keyword(
            DataTypeView::MapOf,
            "map"@,
        ) + seq![TokenView::Lt] + key_tokens + seq![TokenView::Comma] + value_tokens + seq![
            TokenView::Gt,
        ] + tokens_from(b, 0),
{
    let r4 = ">"@ + b;
    let r3 = value + r4;
    let r2 = ", "@ + r3;
    let r1 = key + r2;
    let r0 = "map<"@ + r1;
    assert("map<"@ + key + ", "@ + value + ">"@ + b =~= r0);
    lemma_lit_gt(b);
    lemma_lit_comma(r3);
    lemma_lit_map(r1);
    assert(tokens_from(r0, 0) =~= keyword(DataTypeView::MapOf, "map"@) + seq![TokenView::Lt]
        + key_tokens + seq![TokenView::Comma] + value_tokens + seq![TokenView::Gt] + tokens_from(
        b,
        0,
    ));
}

/// The keyword of a type without arguments is read as its token, if what
/// follows cannot belong to a word.
proof fn lemma_lex_primitive(t: DataTypeStatementView, b: Seq<char>)
    requires
        is_type(t),
        !(t is SetOf),
        !(t is List),
        !(t is MapOf),
        !(t is Object),
        ends_word(b),
    ensures
        tokens_from(type_text(t) + b, 0) == type_tokens(t) + tokens_from(b, 0),
{
    match t {
        DataTypeStatementView::String => {
            lemma_lit_string(b);
        },
        DataTypeStatementView::Integer8 => {
            lemma_lit_i8(b);
        },
        DataTypeStatementView::Integer16 => {
            lemma_lit_i16(b);
        },
        DataTypeStatementView::Integer32 => {
            lemma_lit_i32(b);
        },
        DataTypeStatementView::Integer64 => {
            lemma_lit_i64(b);
        },
        DataTypeStatementView::Float32 => {
            lemma_lit_f32(b);
        },
        DataTypeStatementView::Float64 => {
            lemma_lit_f64(b);
        },
        DataTypeStatementView::Binary => {
            lemma_lit_binary(b);
        },
        DataTypeStatementView::Date => {
            lemma_lit_date(b);
        },
        DataTypeStatementView::Bool => {
            lemma_lit_bool(b);
        },
        _ => {},
    }
}

/// A text that starts with `>` or with `, ` ends a word.
proof fn lemma_ends_in_brackets(b: Seq<char>)
    ensures
        ends_word(">"@ + b),
        ends_word(", "@ + b),
{
    reveal_strlit(">");
    reveal_strlit(", ");
    assert((">"@ + b)[0] == '>');
    assert((", "@ + b)[0] == ',');
}

/// The text of a type expression that can be spelled is read as its tokens,
/// if what follows cannot belong to a word.
pub proof fn lemma_lex_type(t: DataTypeStatementView, b: Seq<char>)
    requires
        is_type(t),
        ends_word(b),
    ensures
        tokens_from(type_text(t) + b, 0) == type_tokens(t) + tokens_from(b, 0),
    decreases t,
{
    match t {
        DataTypeStatementView::SetOf(e) => {
            lemma_ends_in_brackets(b);
            lemma_lex_type(*e, ">"@ + b);
            lemma_lex_set_of(type_text(*e), type_tokens(*e), b);
        },
        DataTypeStatementView::List(e) => {
            lemma_ends_in_brackets(b);
            lemma_lex_type(*e, ">"@ + b);
            lemma_lex_list_of(type_text(*e), type_tokens(*e), b);
        },
        DataTypeStatementView::MapOf(k, v) => {
            lemma_ends_in_brackets(b);
            lemma_lex_type(*v, ">"@ + b);
            lemma_ends_in_brackets(type_text(*v) + (">"@ + b));
            lemma_lex_type(*k, ", "@ + (type_text(*v) + (">"@ + b)));
            lemma_lex_map_of(type_text(*k), type_tokens(*k), type_text(*v), type_tokens(*v), b);
        },
        DataTypeStatementView::Object(i) => {
            lemma_lex_name(i.value, b);
        },
        _ => {
            lemma_lex_primitive(t, b);
        },
    }
}

/// An option of an enum on its line is read as its name and `;`.
pub proof fn lemma_lex_enum_member(name: Seq<char>, depth: nat, b: Seq<char>)
    requires
        is_name(name),
    ensures
        tokens_from(format_enum_member(name, spaces(depth)) + b, 0) == seq![
            TokenView::Ident(name),
            TokenView::Semicolon,
        ] + tokens_from(b, 0),
{
    reveal_strlit(";\n");
    let r2 = ";\n"@ + b;
    let r1 = name + r2;
    let r0 = spaces(depth) + r1;
    assert(format_enum_member(name, spaces(depth)) + b =~= r0);
    lemma_lit_end_line(b);
    lemma_lex_name(name, r2);
    lemma_spaces_blank(depth);
    lemma_lex_blank(spaces(depth), r1);
    assert(tokens_from(r0, 0) =~= seq![TokenView::Ident(name), TokenView::Semicolon]
        + tokens_from(b, 0));
}

/// A field of a record on its line is read as its name, `:`, its type and `;`.
pub proof fn lemma_lex_record_member(
    name: Seq<char>,
    t: DataTypeStatementView,
    depth: nat,
    b: Seq<char>,
)
    requires
        is_name(name),
        is_type(t),
    ensures
        tokens_from(format_record_member(name, t, spaces(depth)) + b, 0) == seq![
            TokenView::Ident(name),
            TokenView::Colon,
        ] + type_tokens(t) + seq![TokenView::Semicolon] + tokens_from(b, 0),
{
    reveal_strlit(";\n");
    reveal_strlit(": ");
    let r4 = ";\n"@ + b;
    let r3 = type_text(t) + r4;
    let r2 = ": "@ + r3;
    let r1 = name + r2;
    let r0 = spaces(depth) + r1;
    assert(format_record_member(name, t, spaces(depth)) + b =~= r0);
    lemma_lit_end_line(b);
    lemma_lex_type(t, r4);
    lemma_lit_colon(r3);
    lemma_lex_name(name, r2);
    lemma_spaces_blank(depth);
    lemma_lex_blank(spaces(depth), r1);
    assert(tokens_from(r0, 0) =~= seq![TokenView::Ident(name), TokenView::Colon] + type_tokens(t)
        + seq![TokenView::Semicolon] + tokens_from(b, 0));
}

/// A comment on its line is read as its token.
pub proof fn lemma_lex_comment_line(text: Seq<char>, depth: nat, b: Seq<char>)
    requires
        is_remark(text),
    ensures
        tokens_from(format_comment(text, spaces(depth)) + b, 0) == seq![TokenView::Comment(text)]
            + tokens_from(b, 0),
{
    reveal_strlit("#");
    reveal_strlit("\n");
    let r1 = seq!['#'] + text + seq!['\n'] + b;
    let r0 = spaces(depth) + r1;
    assert(format_comment(text, spaces(depth)) + b =~= r0);
    lemma_lex_comment(text, b);
    lemma_spaces_blank(depth);
    lemma_lex_blank(spaces(depth), r1);
}

/// The tokens of one parameter.
pub open spec fn parameter_tokens(p: ParameterView) -> Seq<TokenView> {
    seq![TokenView::Ident(p.ident.value), TokenView::Colon] + type_tokens(p.data_type)
}

/// The tokens of the parameters are those of all but the last, a comma, and
/// those of the last.
proof fn lemma_parameters_tokens_snoc(p: Seq<ParameterView>, k: int)
    requires
        p.len() >= 2,
        0 <= k <= p.len() - 2,
    ensures
        parameters_tokens(p, k) == parameters_tokens(p.drop_last(), k) + seq![TokenView::Comma]
            + parameter_tokens(p.last()),
    decreases p.len() - k,
{
    let q = p.drop_last();
    let n = p.len() as int;
    assert(q[k] == p[k]);
    if k == n - 2 {
        assert(parameters_tokens(p, n) =~= Seq::<TokenView>::empty());
        assert(parameters_tokens(p, n - 1) =~= parameter_tokens(p.last()));
        assert(parameters_tokens(q, n - 1) =~= Seq::<TokenView>::empty());
        assert(parameters_tokens(q, k) =~= parameter_tokens(p[k]));
        assert(parameters_tokens(p, k) =~= parameter_tokens(p[k]) + seq![TokenView::Comma]
            + parameter_tokens(p.last()));
    } else {
        lemma_parameters_tokens_snoc(p, k + 1);
        assert(parameters_tokens(p, k) =~= parameters_tokens(q, k) + seq![TokenView::Comma]
            + parameter_tokens(p.last()));
    }
}

/// The tokens of a single parameter.
proof fn lemma_parameters_tokens_one(p: Seq<ParameterView>)
    requires
        p.len() == 1,
    ensures
        parameters_tokens(p, 0) == parameter_tokens(p[0]),
{
    assert(parameters_tokens(p, 1) =~= Seq::<TokenView>::empty());
    assert(parameters_tokens(p, 0) =~= parameter_tokens(p[0]));
}

/// A parameter is read as its name, `:` and its type.
proof fn lemma_lex_parameter(p: ParameterView, b: Seq<char>)
    requires
        is_parameter(p),
        ends_word(b),
    ensures
        tokens_from(format_parameter(p) + b, 0) == parameter_tokens(p) + tokens_from(b, 0),
{
    reveal_strlit(": ");
    let r2 = type_text(p.data_type) + b;
    let r1 = ": "@ + r2;
    let r0 = p.ident.value + r1;
    assert(format_parameter(p) + b =~= r0);
    lemma_lex_type(p.data_type, b);
    lemma_lit_colon(r2);
    lemma_lex_name(p.ident.value, r1);
    assert(tokens_from(r0, 0) =~= parameter_tokens(p) + tokens_from(b, 0));
}

/// The parameters of a function are read as their tokens, if what follows
/// cannot belong to a word.
pub proof fn lemma_lex_parameters(p: Seq<ParameterView>, b: Seq<char>)
    requires
        forall|k: int| 0 <= k < p.len() ==> is_parameter(#[trigger] p[k]),
        ends_word(b),
    ensures
        tokens_from(format_parameters(p) + b, 0) == parameters_tokens(p, 0) + tokens_from(b, 0),
    decreases p.len(),
{
    if p.len() == 0 {
        assert(format_parameters(p) + b =~= b);
        assert(parameters_tokens(p, 0) + tokens_from(b, 0) =~= tokens_from(b, 0));
    } else if p.len() == 1 {
        lemma_parameters_tokens_one(p);
        lemma_lex_parameter(p[0], b);
    } else {
        reveal_strlit(", ");
        let q = p.drop_last();
        let r2 = format_parameter(p.last()) + b;
        let r1 = ", "@ + r2;
        let r0 = format_parameters(q) + r1;
        assert(format_parameters(p) + b =~= r0);
        assert(r1[0] == ',');
        assert forall|k: int| 0 <= k < q.len() implies is_parameter(#[trigger] q[k]) by {
            assert(q[k] == p[k]);
        }
        lemma_lex_parameter(p.last(), b);
        lemma_lit_comma(r2);
        lemma_lex_parameters(q, r1);
        lemma_parameters_tokens_snoc(p, 0);
        assert(tokens_from(r0, 0) =~= parameters_tokens(p, 0) + tokens_from(b, 0));
    }
}

/// The return type of a function is read as its tokens, if what follows
/// cannot belong to a word.
pub proof fn lemma_lex_return(r: DataTypeStatementView, b: Seq<char>)
    requires
        r is Nothing || is_type(r),
        ends_word(b),
    ensures
        tokens_from(format_return(r) + b, 0) == return_tokens(r) + tokens_from(b, 0),
{
    if r is Nothing {
        assert(format_return(r) + b =~= b);
        assert(return_tokens(r) + tokens_from(b, 0) =~= tokens_from(b, 0));
    } else {
        let r1 = type_text(r) + b;
        let r0 = ": "@ + r1;
        assert(format_return(r) + b =~= r0);
        lemma_lex_type(r, b);
        lemma_lit_colon(r1);
        assert(tokens_from(r0, 0) =~= return_tokens(r) + tokens_from(b, 0));
    }
}

/// The tokens of the modifier of a function.
pub open spec fn modifier_tokens(m: FunctionModifier) -> Seq<TokenView> {
    if m == FunctionModifier::Nothing {
        Seq::empty()
    } else {
        seq![TokenView::Static]
    }
}

/// The text of the modifier of a function, with the space behind it.
pub open spec fn format_modifier(m: FunctionModifier) -> Seq<char> {
    if m == FunctionModifier::Nothing {
        Seq::empty()
    } else {
        modifier_text(m) + " "@
    }
}

/// The modifier of a function is read as its token.
proof fn lemma_lex_modifier(m: FunctionModifier, b: Seq<char>)
    ensures
        tokens_from(format_modifier(m) + b, 0) == modifier_tokens(m) + tokens_from(b, 0),
{
    if m == FunctionModifier::Nothing {
        assert(format_modifier(m) + b =~= b);
        assert(modifier_tokens(m) + tokens_from(b, 0) =~= tokens_from(b, 0));
    } else {
        reveal_strlit(" ");
        let r1 = " "@ + b;
        let r0 = "static"@ + r1;
        assert(format_modifier(m) + b =~= r0);
        assert(r1[0] == ' ');
        lemma_lit_space(b);
        lemma_lit_static(r1);
    }
}

/// Eight texts and a ninth behind them, one after the other, are the
/// first before the rest.
proof fn lemma_shape_8<T>(
    a: Seq<T>,
    b: Seq<T>,
    c: Seq<T>,
    d: Seq<T>,
    e: Seq<T>,
    f: Seq<T>,
    g: Seq<T>,
    h: Seq<T>,
    z: Seq<T>,
)
    ensures
        a + b + c + d + e + f + g + h + z == a + (b + (c + (d + (e + (f + (g + (h + z))))))),
{
    assert(a + b + c + d + e + f + g + h + z =~= a + (b + (c + (d + (e + (f + (g + (h
        + z))))))));
}

/// Six texts and a seventh behind them, one after the other, are the first
/// before the rest.
proof fn lemma_shape_6<T>(
    a: Seq<T>,
    b: Seq<T>,
    c: Seq<T>,
    d: Seq<T>,
    e: Seq<T>,
    f: Seq<T>,
    z: Seq<T>,
)
    ensures
        a + b + c + d + e + f + z == a + (b + (c + (d + (e + (f + z))))),
{
    assert(a + b + c + d + e + f + z =~= a + (b + (c + (d + (e + (f + z))))));
}

/// The tokens of a function, one after the other.
proof fn lemma_function_tokens_shape(
    m: Seq<TokenView>,
    name: Seq<char>,
    p: Seq<TokenView>,
    r: Seq<TokenView>,
    z: Seq<TokenView>,
)
    ensures
        m + (seq![TokenView::Ident(name)] + (seq![TokenView::LParen] + (p + (seq![
            TokenView::RParen,
        ] + (r + (seq![TokenView::Semicolon] + z)))))) == m + seq![
            TokenView::Ident(name),
            TokenView::LParen,
        ] + p + seq![TokenView::RParen] + r + seq![TokenView::Semicolon] + z,
{
    assert(m + (seq![TokenView::Ident(name)] + (seq![TokenView::LParen] + (p + (seq![
        TokenView::RParen,
    ] + (r + (seq![TokenView::Semicolon] + z)))))) =~= m + seq![
        TokenView::Ident(name),
        TokenView::LParen,
    ] + p + seq![TokenView::RParen] + r + seq![TokenView::Semicolon] + z);
}

/// A function on its line is read as its tokens.
pub proof fn lemma_lex_function(
    m: FunctionModifier,
    name: Seq<char>,
    p: Seq<ParameterView>,
    r: DataTypeStatementView,
    depth: nat,
    b: Seq<char>,
)
    requires
        is_name(name),
        forall|k: int| 0 <= k < p.len() ==> is_parameter(#[trigger] p[k]),
        r is Nothing || is_type(r),
    ensures
        tokens_from(format_function(m, name, p, r, spaces(depth)) + b, 0) == modifier_tokens(m)
            + seq![TokenView::Ident(name), TokenView::LParen] + parameters_tokens(p, 0) + seq![
            TokenView::RParen,
        ] + return_tokens(r) + seq![TokenView::Semicolon] + tokens_from(b, 0),
{
    let r7 = ";\n"@ + b;
    let r6 = format_return(r) + r7;
    let r5 = ")"@ + r6;
    let r4 = format_parameters(p) + r5;
    let r3 = "("@ + r4;
    let r2 = name + r3;
    let r1 = format_modifier(m) + r2;
    let r0 = spaces(depth) + r1;
    lemma_shape_8(
        spaces(depth),
        format_modifier(m),
        name,
        "("@,
        format_parameters(p),
        ")"@,
        format_return(r),
        ";\n"@,
        b,
    );
    assert(r7[0] == ';' && r5[0] == ')' && r3[0] == '(') by {
        reveal_strlit(";\n");
        reveal_strlit("(");
        reveal_strlit(")");
    }
    lemma_lit_end_line(b);
    lemma_lex_return(r, r7);
    lemma_lit_rparen(r6);
    lemma_lex_parameters(p, r5);
    lemma_lit_lparen(r4);
    lemma_lex_name(name, r3);
    lemma_lex_modifier(m, r2);
    lemma_spaces_blank(depth);
    lemma_lex_blank(spaces(depth), r1);
    lemma_function_tokens_shape(
        modifier_tokens(m),
        name,
        parameters_tokens(p, 0),
        return_tokens(r),
        tokens_from(b, 0),
    );
}

/// The tokens of the derives are those of all but the last, a comma, and
/// that of the last.
proof fn lemma_derives_tokens_snoc(d: Seq<DeriveType>, k: int)
    requires
        d.len() >= 2,
        0 <= k <= d.len() - 2,
    ensures
        derives_tokens(d, k) == derives_tokens(d.drop_last(), k) + seq![TokenView::Comma] + seq![
            derive_token(d.last()),
        ],
    decreases d.len() - k,
{
    let q = d.drop_last();
    let n = d.len() as int;
    assert(q[k] == d[k]);
    if k == n - 2 {
        assert(derives_tokens(d, n) =~= Seq::<TokenView>::empty());
        assert(derives_tokens(d, n - 1) =~= seq![derive_token(d.last())]);
        assert(derives_tokens(q, n - 1) =~= Seq::<TokenView>::empty());
        assert(derives_tokens(q, k) =~= seq![derive_token(d[k])]);
        assert(derives_tokens(d, k) =~= seq![derive_token(d[k])] + seq![TokenView::Comma] + seq![
            derive_token(d.last()),
        ]);
    } else {
        lemma_derives_tokens_snoc(d, k + 1);
        assert(derives_tokens(d, k) =~= derives_tokens(q, k) + seq![TokenView::Comma] + seq![
            derive_token(d.last()),
        ]);
    }
}

/// A derive is read as its token, if what follows cannot belong to a word.
proof fn lemma_lex_derive(d: DeriveType, b: Seq<char>)
    requires
        d != DeriveType::Nothing,
        ends_word(b),
    ensures
        tokens_from(derive_text(d) + b, 0) == seq![derive_token(d)] + tokens_from(b, 0),
{
    if d == DeriveType::Eq {
        lemma_lit_eq(b);
    } else {
        lemma_lit_ord(b);
    }
}

/// The derives of a clause are read as their tokens, if what follows
/// cannot belong to a word.
pub proof fn lemma_lex_derives(d: Seq<DeriveType>, b: Seq<char>)
    requires
        d.len() >= 1,
        are_derives(d),
        ends_word(b),
    ensures
        tokens_from(format_derives(d) + b, 0) == derives_tokens(d, 0) + tokens_from(b, 0),
    decreases d.len(),
{
    if d.len() == 1 {
        assert(derives_tokens(d, 1) =~= Seq::<TokenView>::empty());
        assert(derives_tokens(d, 0) =~= seq![derive_token(d[0])]);
        lemma_lex_derive(d[0], b);
    } else {
        reveal_strlit(", ");
        let q = d.drop_last();
        let r2 = derive_text(d.last()) + b;
        let r1 = ", "@ + r2;
        let r0 = format_derives(q) + r1;
        assert(format_derives(d) + b =~= r0);
        assert(r1[0] == ',');
        assert forall|k: int| 0 <= k < q.len() implies #[trigger] q[k] != DeriveType::Nothing by {
            assert(q[k] == d[k]);
        }
        lemma_lex_derive(d.last(), b);
        lemma_lit_comma(r2);
        lemma_lex_derives(q, r1);
        lemma_derives_tokens_snoc(d, 0);
        assert(tokens_from(r0, 0) =~= derives_tokens(d, 0) + tokens_from(b, 0));
    }
}

/// A `deriving` clause is read as its tokens.
pub proof fn lemma_lex_deriving(d: Seq<DeriveType>, b: Seq<char>)
    requires
        are_derives(d),
    ensures
        tokens_from(format_deriving(d) + b, 0) == deriving_tokens(d) + tokens_from(b, 0),
{
    if d.len() == 0 {
        lemma_lit_newline(b);
        assert(deriving_tokens(d) + tokens_from(b, 0) =~= tokens_from(b, 0));
    } else {
        reveal_strlit(")\n");
        let r2 = ")\n"@ + b;
        let r1 = format_derives(d) + r2;
        let r0 = " deriving ("@ + r1;
        assert(format_deriving(d) + b =~= r0);
        assert(r2[0] == ')');
        lemma_lit_close_deriving(b);
        lemma_lex_derives(d, r2);
        lemma_lit_deriving(r1);
        assert(tokens_from(r0, 0) =~= deriving_tokens(d) + tokens_from(b, 0));
    }
}

/// The tokens of the targets are those of all but the last, and that of
/// the last.
proof fn lemma_targets_tokens_snoc(t: Seq<InterfaceType>, k: int)
    requires
        t.len() >= 1,
        0 <= k <= t.len() - 1,
    ensures
        targets_tokens(t, k) == targets_tokens(t.drop_last(), k) + seq![target_token(t.last())],
    decreases t.len() - k,
{
    let q = t.drop_last();
    let n = t.len() as int;
    if k == n - 1 {
        assert(targets_tokens(t, n) =~= Seq::<TokenView>::empty());
        assert(targets_tokens(q, k) =~= Seq::<TokenView>::empty());
        assert(targets_tokens(t, k) =~= seq![target_token(t.last())]);
    } else {
        assert(q[k] == t[k]);
        lemma_targets_tokens_snoc(t, k + 1);
        assert(targets_tokens(t, k) =~= targets_tokens(q, k) + seq![target_token(t.last())]);
    }
}

/// The tag of a target is read as its token.
proof fn lemma_lex_target(t: InterfaceType, b: Seq<char>)
    ensures
        tokens_from(interface_type_text(t) + b, 0) == seq![target_token(t)] + tokens_from(b, 0),
{
    match t {
        InterfaceType::Java => {
            lemma_lit_java(b);
        },
        InterfaceType::ObjectiveC => {
            lemma_lit_objc(b);
        },
        InterfaceType::Cpp => {
            lemma_lit_cpp(b);
        },
    }
}

/// The targets of an interface are read as their tokens.
pub proof fn lemma_lex_targets(t: Seq<InterfaceType>, b: Seq<char>)
    ensures
        tokens_from(format_targets(t) + b, 0) == targets_tokens(t, 0) + tokens_from(b, 0),
    decreases t.len(),
{
    if t.len() == 0 {
        assert(format_targets(t) + b =~= b);
        assert(targets_tokens(t, 0) + tokens_from(b, 0) =~= tokens_from(b, 0));
    } else {
        let q = t.drop_last();
        let r2 = " "@ + b;
        let r1 = interface_type_text(t.last()) + r2;
        let r0 = format_targets(q) + r1;
        assert(format_targets(t) + b =~= r0);
        lemma_lit_space(b);
        lemma_lex_target(t.last(), r2);
        lemma_lex_targets(q, r1);
        lemma_targets_tokens_snoc(t, 0);
        assert(tokens_from(r0, 0) =~= targets_tokens(t, 0) + tokens_from(b, 0));
    }
}

/// Two texts and one more behind them, one after the other, are the
/// first before the rest.
proof fn lemma_shape_2<T>(
    a: Seq<T>,
    b: Seq<T>,
    z: Seq<T>,
)
    ensures
        a + b + z == a + (b + (z)),
{
    assert(a + b + z =~= a + (b + (z)));
}

/// Three texts and one more behind them, one after the other, are the
/// first before the rest.
proof fn lemma_shape_3<T>(
    a: Seq<T>,
    b: Seq<T>,
    c: Seq<T>,
    z: Seq<T>,
)
    ensures
        a + b + c + z == a + (b + (c + (z))),
{
    assert(a + b + c + z =~= a + (b + (c + (z))));
}

/// Four texts and one more behind them, one after the other, are the
/// first before the rest.
proof fn lemma_shape_4<T>(
    a: Seq<T>,
    b: Seq<T>,
    c: Seq<T>,
    d: Seq<T>,
    z: Seq<T>,
)
    ensures
        a + b + c + d + z == a + (b + (c + (d + (z)))),
{
    assert(a + b + c + d + z =~= a + (b + (c + (d + (z)))));
}

/// Five texts and one more behind them, one after the other, are the
/// first before the rest.
proof fn lemma_shape_5<T>(
    a: Seq<T>,
    b: Seq<T>,
    c: Seq<T>,
    d: Seq<T>,
    e: Seq<T>,
    z: Seq<T>,
)
    ensures
        a + b + c + d + e + z == a + (b + (c + (d + (e + (z))))),
{
    assert(a + b + c + d + e + z =~= a + (b + (c + (d + (e + (z))))));
}

/// The tokens of a sequence of statements are those of all but the last,
/// and those of the last.
pub proof fn lemma_block_tokens_snoc(v: Seq<StatementView>)
    requires
        v.len() >= 1,
    ensures
        block_tokens(v) == block_tokens(v.drop_last()) + statement_tokens(v.last()),
    decreases v.len(),
{
    if v.len() == 1 {
        assert(block_tokens(v.drop_first()) =~= Seq::<TokenView>::empty());
        assert(block_tokens(v.drop_last()) =~= Seq::<TokenView>::empty());
        assert(block_tokens(v) =~= statement_tokens(v.last()));
        assert(block_tokens(v.drop_last()) + statement_tokens(v.last()) =~= statement_tokens(
            v.last(),
        ));
    } else {
        let tail = v.drop_first();
        lemma_block_tokens_snoc(tail);
        assert(tail.drop_last() =~= v.drop_last().drop_first());
        assert(tail.last() == v.last());
        assert(v.drop_last().first() == v.first());
        lemma_shape_2(
            statement_tokens(v.first()),
            block_tokens(tail.drop_last()),
            statement_tokens(v.last()),
        );
    }
}

/// Where every statement of a sequence can be spelled, all but the last
/// can, and the last can.
pub proof fn lemma_are_statements_snoc(v: Seq<StatementView>, place: Place)
    requires
        v.len() >= 1,
        are_statements(v, place),
    ensures
        are_statements(v.drop_last(), place),
        is_statement(v.last(), place),
    decreases v.len(),
{
    if v.len() > 1 {
        let tail = v.drop_first();
        lemma_are_statements_snoc(tail, place);
        assert(tail.drop_last() =~= v.drop_last().drop_first());
        assert(tail.last() == v.last());
        assert(v.drop_last().first() == v.first());
    } else {
        assert(v.drop_last() =~= Seq::<StatementView>::empty());
    }
}

/// A text between double quotes is read as a string token.
proof fn lemma_lex_quoted(text: Seq<char>, b: Seq<char>)
    requires
        is_quotable(text),
    ensures
        tokens_from(format_string(text) + b, 0) == seq![TokenView::StringToken(text)]
            + tokens_from(b, 0),
{
    reveal_strlit("\"");
    assert(format_string(text) + b =~= seq!['"'] + text + seq!['"'] + b);
    lemma_lex_string(text, b);
}

/// The tokens of a definition, one after the other.
proof fn lemma_definition_tokens_shape(name: Seq<char>, v: Seq<TokenView>, z: Seq<TokenView>)
    ensures
        seq![TokenView::Ident(name)] + (seq![TokenView::Equal] + (v + (seq![TokenView::Comma]
            + z))) == seq![TokenView::Ident(name), TokenView::Equal] + v + seq![TokenView::Comma]
            + z,
{
    assert(seq![TokenView::Ident(name)] + (seq![TokenView::Equal] + (v + (seq![TokenView::Comma]
        + z))) =~= seq![TokenView::Ident(name), TokenView::Equal] + v + seq![TokenView::Comma]
        + z);
}

/// The canonical text of a value that can be spelled is read as its tokens,
/// if what follows cannot belong to a word or a number.
pub proof fn lemma_lex_display_value(v: StatementView, b: Seq<char>)
    requires
        is_statement(v, Place::Value),
        ends_all(b),
    ensures
        tokens_from(statement_text(v) + b, 0) == statement_tokens(v) + tokens_from(b, 0),
    decreases v, 0nat,
{
    match v {
        StatementView::StringLiteral(_, text) => {
            lemma_lex_quoted(text, b);
        },
        StatementView::NumberLiteral(_, text) => {
            lemma_lex_number(text, b);
        },
        StatementView::Boolean(_, value) => {
            if value {
                lemma_lit_true(b);
            } else {
                lemma_lit_false(b);
            }
        },
        StatementView::Block(block) => {
            let r2 = " }"@ + b;
            let r1 = block_text(block.statements) + r2;
            lemma_shape_3("{ "@, block_text(block.statements), " }"@, b);
            lemma_lit_close_block(b);
            lemma_lex_display_block(block.statements, r2);
            lemma_lit_open_block(r1);
            lemma_shape_3(
                seq![TokenView::LBrace],
                block_tokens(block.statements),
                seq![TokenView::RBrace],
                tokens_from(b, 0),
            );
        },
        _ => {},
    }
}

/// The canonical text of the definitions of a block is read as their tokens.
pub proof fn lemma_lex_display_block(defs: Seq<StatementView>, b: Seq<char>)
    requires
        are_statements(defs, Place::Definitions),
    ensures
        tokens_from(block_text(defs) + b, 0) == block_tokens(defs) + tokens_from(b, 0),
    decreases defs, 1nat,
{
    if defs.len() == 0 {
        assert(block_text(defs) + b =~= b);
        assert(block_tokens(defs) + tokens_from(b, 0) =~= tokens_from(b, 0));
    } else {
        let front = defs.drop_last();
        let last = defs.last();
        lemma_are_statements_snoc(defs, Place::Definitions);
        lemma_block_tokens_snoc(defs);
        match last {
            StatementView::Definition(id, v) => {
                let r4 = ","@ + b;
                let r3 = statement_text(*v) + r4;
                let r2 = " = "@ + r3;
                let r1 = id.value + r2;
                lemma_shape_4(id.value, " = "@, statement_text(*v), ","@, b);
                assert(r4[0] == ',' && r2[0] == ' ') by {
                    reveal_strlit(",");
                    reveal_strlit(" = ");
                }
                lemma_lit_comma_alone(b);
                lemma_lex_display_value(*v, r4);
                lemma_lit_equal(r3);
                lemma_lex_name(id.value, r2);
                lemma_definition_tokens_shape(id.value, statement_tokens(*v), tokens_from(b, 0));
                lemma_shape_2(block_text(front), statement_text(last), b);
                lemma_lex_display_block(front, statement_text(last) + b);
                lemma_shape_2(block_tokens(front), statement_tokens(last), tokens_from(b, 0));
            },
            _ => {},
        }
    }
}

/// The formatted text of a value that can be spelled is read as its
/// tokens, if what follows cannot belong to a word or a number.
pub proof fn lemma_lex_value(v: StatementView, depth: nat, b: Seq<char>)
    requires
        is_statement(v, Place::Value),
        ends_all(b),
    ensures
        tokens_from(format_statement(v, depth) + b, 0) == statement_tokens(v) + tokens_from(b, 0),
{
    match v {
        StatementView::StringLiteral(_, text) => {
            lemma_lex_quoted(text, b);
        },
        StatementView::NumberLiteral(_, text) => {
            lemma_lex_number(text, b);
        },
        StatementView::Boolean(_, value) => {
            if value {
                lemma_lit_true(b);
            } else {
                lemma_lit_false(b);
            }
        },
        StatementView::Block(block) => {
            let body = block_text(block.statements);
            let r5 = "}"@ + b;
            let r4 = spaces(depth) + r5;
            let r3 = "\n"@ + r4;
            let r2 = body + r3;
            let r1 = spaces(depth + 1) + r2;
            let r0 = " {\n"@ + r1;
            lemma_shape_6(" {\n"@, spaces(depth + 1), body, "\n"@, spaces(depth), "}"@, b);
            lemma_lit_close(b);
            lemma_spaces_blank(depth);
            lemma_lex_blank(spaces(depth), r5);
            lemma_lit_newline(r4);
            lemma_lex_display_block(block.statements, r3);
            lemma_spaces_blank(depth + 1);
            lemma_lex_blank(spaces(depth + 1), r2);
            lemma_lit_open(r1);
            lemma_shape_3(
                seq![TokenView::LBrace],
                block_tokens(block.statements),
                seq![TokenView::RBrace],
                tokens_from(b, 0),
            );
        },
        _ => {},
    }
}

/// The tokens of a constant, one after the other.
proof fn lemma_const_tokens_shape(
    name: Seq<char>,
    t: Seq<TokenView>,
    v: Seq<TokenView>,
    z: Seq<TokenView>,
)
    ensures
        seq![TokenView::Const] + (seq![TokenView::Ident(name)] + (seq![TokenView::Colon] + (t
            + (seq![TokenView::Equal] + (v + (seq![TokenView::Semicolon] + z)))))) == seq![
            TokenView::Const,
            TokenView::Ident(name),
            TokenView::Colon,
        ] + t + seq![TokenView::Equal] + v + seq![TokenView::Semicolon] + z,
{
    assert(seq![TokenView::Const] + (seq![TokenView::Ident(name)] + (seq![TokenView::Colon] + (t
        + (seq![TokenView::Equal] + (v + (seq![TokenView::Semicolon] + z)))))) =~= seq![
        TokenView::Const,
        TokenView::Ident(name),
        TokenView::Colon,
    ] + t + seq![TokenView::Equal] + v + seq![TokenView::Semicolon] + z);
}

/// A constant on its line is read as its tokens.
pub proof fn lemma_lex_const(
    name: Seq<char>,
    t: DataTypeStatementView,
    v: StatementView,
    depth: nat,
    b: Seq<char>,
)
    requires
        is_name(name),
        is_type(t),
        is_statement(v, Place::Value),
    ensures
        tokens_from(format_const(name, t, format_statement(v, depth), spaces(depth)) + b, 0)
            == seq![TokenView::Const, TokenView::Ident(name), TokenView::Colon] + type_tokens(t)
            + seq![TokenView::Equal] + statement_tokens(v) + seq![TokenView::Semicolon]
            + tokens_from(b, 0),
{
    let r7 = ";\n"@ + b;
    let r6 = format_statement(v, depth) + r7;
    let r5 = " = "@ + r6;
    let r4 = type_text(t) + r5;
    let r3 = ": "@ + r4;
    let r2 = name + r3;
    let r1 = "const "@ + r2;
    lemma_shape_8(
        spaces(depth),
        "const "@,
        name,
        ": "@,
        type_text(t),
        " = "@,
        format_statement(v, depth),
        ";\n"@,
        b,
    );
    assert(r7[0] == ';' && r5[0] == ' ' && r3[0] == ':') by {
        reveal_strlit(";\n");
        reveal_strlit(" = ");
        reveal_strlit(": ");
    }
    lemma_lit_end_line(b);
    lemma_lex_value(v, depth, r7);
    lemma_lit_equal(r6);
    lemma_lex_type(t, r5);
    lemma_lit_colon(r4);
    lemma_lex_name(name, r3);
    lemma_lit_const(r2);
    lemma_spaces_blank(depth);
    lemma_lex_blank(spaces(depth), r1);
    lemma_const_tokens_shape(name, type_tokens(t), statement_tokens(v), tokens_from(b, 0));
}

/// An import on its line is read as `@`, `import` and its path.
pub proof fn lemma_lex_import(path: Seq<char>, b: Seq<char>)
    requires
        is_quotable(path),
    ensures
        tokens_from(format_import(path) + b, 0) == seq![
            TokenView::AtSign,
            TokenView::Import,
            TokenView::StringToken(path),
        ] + tokens_from(b, 0),
{
    reveal_strlit("@import \"");
    reveal_strlit("\"\n");
    reveal_strlit("import");
    lemma_reserved_words();
    let r4 = seq!['\n'] + b;
    let r3 = seq!['"'] + path + seq!['"'] + r4;
    let r2 = seq![' '] + r3;
    let r1 = "import"@ + r2;
    let r0 = seq!['@'] + r1;
    assert(format_import(path) + b =~= r0);
    lemma_lex_blank(seq!['\n'], b);
    lemma_lex_string(path, r4);
    lemma_lex_blank(seq![' '], r3);
    lemma_lex_word("import"@, r2);
    lemma_lex_punctuation('@', r1);
    assert(tokens_from(r0, 0) =~= seq![
        TokenView::AtSign,
        TokenView::Import,
        TokenView::StringToken(path),
    ] + tokens_from(b, 0));
}

/// An enum is read as its tokens if its body is.
proof fn lemma_lex_enum(
    name: Seq<char>,
    body: Seq<char>,
    body_tokens: Seq<TokenView>,
    b: Seq<char>,
)
    requires
        is_name(name),
        tokens_from(body + ("}\n"@ + ("\n"@ + b)), 0) == body_tokens + tokens_from(
            "}\n"@ + ("\n"@ + b),
            0,
        ),
    ensures
        tokens_from(name + " = enum {\n"@ + body + "}\n"@ + "\n"@ + b, 0) == seq![
            TokenView::Ident(name),
            TokenView::Equal,
            TokenView::Enum,
            TokenView::LBrace,
        ] + body_tokens + seq![TokenView::RBrace] + tokens_from(b, 0),
{
    let r4 = "\n"@ + b;
    let r3 = "}\n"@ + r4;
    let r2 = body + r3;
    let r1 = " = enum {\n"@ + r2;
    lemma_shape_5(name, " = enum {\n"@, body, "}\n"@, "\n"@, b);
    assert(r1[0] == ' ') by {
        reveal_strlit(" = enum {\n");
    }
    lemma_lit_newline(b);
    lemma_lit_close_line(r4);
    lemma_lit_open_enum(r2);
    lemma_lex_name(name, r1);
    assert(seq![TokenView::Ident(name)] + (seq![
        TokenView::Equal,
        TokenView::Enum,
        TokenView::LBrace,
    ] + (body_tokens + (seq![TokenView::RBrace] + tokens_from(b, 0)))) =~= seq![
        TokenView::Ident(name),
        TokenView::Equal,
        TokenView::Enum,
        TokenView::LBrace,
    ] + body_tokens + seq![TokenView::RBrace] + tokens_from(b, 0));
}

/// A record is read as its tokens if its body is.
proof fn lemma_lex_record(
    name: Seq<char>,
    body: Seq<char>,
    body_tokens: Seq<TokenView>,
    d: Seq<DeriveType>,
    b: Seq<char>,
)
    requires
        is_name(name),
        are_derives(d),
        tokens_from(body + ("}"@ + (format_deriving(d) + ("\n"@ + b))), 0) == body_tokens
            + tokens_from("}"@ + (format_deriving(d) + ("\n"@ + b)), 0),
    ensures
        tokens_from(name + " = record {\n"@ + body + "}"@ + format_deriving(d) + "\n"@ + b, 0)
            == seq![
            TokenView::Ident(name),
            TokenView::Equal,
            TokenView::Record,
            TokenView::LBrace,
        ] + body_tokens + seq![TokenView::RBrace] + deriving_tokens(d) + tokens_from(b, 0),
{
    let r5 = "\n"@ + b;
    let r4 = format_deriving(d) + r5;
    let r3 = "}"@ + r4;
    let r2 = body + r3;
    let r1 = " = record {\n"@ + r2;
    lemma_shape_6(name, " = record {\n"@, body, "}"@, format_deriving(d), "\n"@, b);
    assert(r1[0] == ' ') by {
        reveal_strlit(" = record {\n");
    }
    lemma_lit_newline(b);
    lemma_lex_deriving(d, r5);
    lemma_lit_close(r4);
    lemma_lit_open_record(r2);
    lemma_lex_name(name, r1);
    assert(seq![TokenView::Ident(name)] + (seq![
        TokenView::Equal,
        TokenView::Record,
        TokenView::LBrace,
    ] + (body_tokens + (seq![TokenView::RBrace] + (deriving_tokens(d) + tokens_from(b, 0)))))
        =~= seq![TokenView::Ident(name), TokenView::Equal, TokenView::Record, TokenView::LBrace]
        + body_tokens + seq![TokenView::RBrace] + deriving_tokens(d) + tokens_from(b, 0));
}

/// An interface is read as its tokens if its body is.
#[verifier::rlimit(40)]
proof fn lemma_lex_interface(
    name: Seq<char>,
    targets: Seq<InterfaceType>,
    body: Seq<char>,
    body_tokens: Seq<TokenView>,
    d: Seq<DeriveType>,
    b: Seq<char>,
)
    requires
        is_name(name),
        are_derives(d),
        tokens_from(body + ("}"@ + (format_deriving(d) + ("\n"@ + b))), 0) == body_tokens
            + tokens_from("}"@ + (format_deriving(d) + ("\n"@ + b)), 0),
    ensures
        tokens_from(
            name + " = interface "@ + format_targets(targets) + " {\n"@ + body + "}"@
                + format_deriving(d) + "\n"@ + b,
            0,
        ) == seq![TokenView::Ident(name), TokenView::Equal, TokenView::Interface] + targets_tokens(
            targets,
            0,
        ) + seq![TokenView::LBrace] + body_tokens + seq![TokenView::RBrace] + deriving_tokens(d)
            + tokens_from(b, 0),
{
    let r7 = "\n"@ + b;
    let r6 = format_deriving(d) + r7;
    let r5 = "}"@ + r6;
    let r4 = body + r5;
    let r3 = " {\n"@ + r4;
    let r2 = format_targets(targets) + r3;
    let r1 = " = interface "@ + r2;
    lemma_shape_8(
        name,
        " = interface "@,
        format_targets(targets),
        " {\n"@,
        body,
        "}"@,
        format_deriving(d),
        "\n"@,
        b,
    );
    assert(r1[0] == ' ') by {
        reveal_strlit(" = interface ");
    }
    lemma_lit_newline(b);
    lemma_lex_deriving(d, r7);
    lemma_lit_close(r6);
    lemma_lit_open(r4);
    lemma_lex_targets(targets, r3);
    lemma_lit_interface(r2);
    lemma_lex_name(name, r1);
    assert(seq![TokenView::Ident(name)] + (seq![TokenView::Equal, TokenView::Interface] + (
    targets_tokens(targets, 0) + (seq![TokenView::LBrace] + (body_tokens + (seq![
        TokenView::RBrace,
    ] + (deriving_tokens(d) + tokens_from(b, 0))))))) =~= seq![
        TokenView::Ident(name),
        TokenView::Equal,
        TokenView::Interface,
    ] + targets_tokens(targets, 0) + seq![TokenView::LBrace] + body_tokens + seq![
        TokenView::RBrace,
    ] + deriving_tokens(d) + tokens_from(b, 0));
}

/// The places in which the formatter writes statements line by line.
pub open spec fn is_body(place: Place) -> bool {
    place is Top || place is EnumBody || place is RecordBody || place is InterfaceBody
}

/// The formatted text of a statement that can be spelled is read as its tokens.
pub proof fn lemma_lex_statement(s: StatementView, depth: nat, place: Place, b: Seq<char>)
    requires
        is_body(place),
        is_statement(s, place),
    ensures
        tokens_from(format_statement(s, depth) + b, 0) == statement_tokens(s) + tokens_from(b, 0),
    decreases s, 0nat,
{
    match s {
        StatementView::Import(_, path) => {
            lemma_shape_2(format_import(path), "\n"@, b);
            lemma_lit_newline(b);
            lemma_lex_import(path, "\n"@ + b);
        },
        StatementView::Comment(_, text) => {
            lemma_lex_comment_line(text, depth, b);
        },
        StatementView::EnumMember(_, i) => {
            lemma_lex_enum_member(i.value, depth, b);
        },
        StatementView::RecordMember(_, i, t) => {
            lemma_lex_record_member(i.value, t, depth, b);
        },
        StatementView::Function(_, m, i, p, r) => {
            lemma_lex_function(m, i.value, p, r, depth, b);
        },
        StatementView::Const(_, i, t, v) => {
            lemma_lex_const(i.value, t, *v, depth, b);
        },
        StatementView::Enum(_, i, block) => {
            assert(format_enum(i.value, block.statements, depth) == i.value + " = enum {\n"@
                + format_block(block.statements, depth + 1) + "}\n"@);
            lemma_lex_block(
                block.statements,
                depth + 1,
                Place::EnumBody,
                "}\n"@ + ("\n"@ + b),
            );
            lemma_lex_enum(
                i.value,
                format_block(block.statements, depth + 1),
                block_tokens(block.statements),
                b,
            );
        },
        StatementView::Record(_, i, block, d) => {
            assert(format_record(i.value, block.statements, d, depth) == i.value
                + " = record {\n"@ + format_block(block.statements, depth + 1) + "}"@
                + format_deriving(d));
            lemma_lex_block(
                block.statements,
                depth + 1,
                Place::RecordBody,
                "}"@ + (format_deriving(d) + ("\n"@ + b)),
            );
            lemma_lex_record(
                i.value,
                format_block(block.statements, depth + 1),
                block_tokens(block.statements),
                d,
                b,
            );
        },
        StatementView::Interface(_, i, targets, block, d) => {
            assert(format_interface(i.value, targets, block.statements, d, depth) == i.value
                + " = interface "@ + format_targets(targets) + " {\n"@ + format_block(
                block.statements,
                depth + 1,
            ) + "}"@ + format_deriving(d));
            lemma_lex_block(
                block.statements,
                depth + 1,
                Place::InterfaceBody,
                "}"@ + (format_deriving(d) + ("\n"@ + b)),
            );
            lemma_lex_interface(
                i.value,
                targets,
                format_block(block.statements, depth + 1),
                block_tokens(block.statements),
                d,
                b,
            );
        },
        _ => {},
    }
}

/// The formatted text of statements that can be spelled is read as their tokens.
pub proof fn lemma_lex_block(v: Seq<StatementView>, depth: nat, place: Place, b: Seq<char>)
    requires
        is_body(place),
        are_statements(v, place),
    ensures
        tokens_from(format_block(v, depth) + b, 0) == block_tokens(v) + tokens_from(b, 0),
    decreases v, 1nat,
{
    if v.len() == 0 {
        assert(format_block(v, depth) + b =~= b);
        assert(block_tokens(v) + tokens_from(b, 0) =~= tokens_from(b, 0));
    } else {
        let front = v.drop_last();
        let last = v.last();
        lemma_are_statements_snoc(v, place);
        lemma_block_tokens_snoc(v);
        lemma_shape_2(format_block(front, depth), format_statement(last, depth), b);
        lemma_lex_statement(last, depth, place, b);
        lemma_lex_block(front, depth, place, format_statement(last, depth) + b);
        lemma_shape_2(block_tokens(front), statement_tokens(last), tokens_from(b, 0));
    }
}

/// The formatted text of a program that can be spelled is read as the
/// tokens that spell the program.
pub proof fn lemma_lex_program(p: Seq<StatementView>)
    requires
        is_program(p),
    ensures
        lex_spec(format_program(p)) == program_tokens(p),
{
    let none = Seq::<char>::empty();
    lemma_lex_block(p, 0, Place::Top, none);
    lemma_lex_empty();
    assert(format_program(p) + none =~= format_program(p));
}

} // verus!
