//! Formatting a program and parsing the text gives the program back.

use crate::parser::ast::{type_text, DataTypeStatementView, StatementView};
use crate::parser::djinni_fmt::{format_program, format_spec};
use crate::parser::grammar::{program_spec, type_spec, ParseErrorView};
use crate::parser::lexer::lex_spec;
use crate::parser::spelling::lemma_lex_empty;
use crate::parser::text_laws::{lemma_lex_program, lemma_lex_type};
use crate::parser::token::TokenView;
use crate::parser::token_laws::{lemma_parse_tokens, lemma_parse_type, matches_at};
use crate::parser::unparse::{is_program, is_type, type_tokens};
use vstd::prelude::*;

verus! {

/// The round trip: the formatted text of a program that can be spelled
/// parses, without an error, to the program itself.
///
/// A program can be spelled if its statements stand where the language has
/// them, its tokens are those of its statements, its names are words that
/// are not reserved, its types hold no missing type, its strings hold no
/// double quote, its comments no line break, and its numbers only digits
/// and dots.
pub proof fn lemma_round_trip(p: Seq<StatementView>)
    requires
        is_program(p),
    ensures
        program_spec(lex_spec(format_program(p)), 0).value == p,
        program_spec(lex_spec(format_program(p)), 0).errors == Seq::<ParseErrorView>::empty(),
{
    lemma_lex_program(p);
    lemma_parse_tokens(p);
}

/// The round trip of types: the text of a type expression that can be
/// spelled parses, without an error, to the type expression itself.
pub proof fn lemma_type_round_trip(t: DataTypeStatementView)
    requires
        is_type(t),
    ensures
        type_spec(lex_spec(type_text(t)), 0).value == t,
        type_spec(lex_spec(type_text(t)), 0).errors == Seq::<ParseErrorView>::empty(),
{
    let none = Seq::<char>::empty();
    lemma_lex_type(t, none);
    lemma_lex_empty();
    assert(type_text(t) + none =~= type_text(t));
    let ts = lex_spec(type_text(t));
    assert(ts == type_tokens(t) + seq![TokenView::Eof]);
    assert(matches_at(ts, 0, type_tokens(t)));
    assert(ts[type_tokens(t).len() as int] == TokenView::Eof);
    lemma_parse_type(ts, 0, t);
}

/// Formatting is stable: the formatted text of a program that can be
/// spelled is formatted to itself.
pub proof fn lemma_format_is_stable(p: Seq<StatementView>)
    requires
        is_program(p),
    ensures
        format_spec(format_program(p)) == Ok::<Seq<char>, Seq<ParseErrorView>>(format_program(p)),
{
    lemma_round_trip(p);
}

} // verus!
