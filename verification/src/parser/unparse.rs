//! The tokens that spell a syntax tree, and the trees that can be spelled.

use crate::parser::ast::{
    DataTypeStatementView, DeriveType, FunctionModifier, IdentifierView, InterfaceType,
    ParameterView, StatementView,
};
use crate::parser::keywords::lookup_word;
use crate::parser::spelling::{is_number, is_quotable, is_remark, is_word};
use crate::parser::token::{DataTypeView, TokenView};
use vstd::prelude::*;

verus! {

/// Whether `s` can be the text of a name: a word that is not reserved.
pub open spec fn is_name(s: Seq<char>) -> bool {
    is_word(s) && lookup_word(s) == TokenView::Ident(s)
}

/// Whether `i` is the identifier of a name: its text is a name, and its
/// token is the token of that name.
pub open spec fn is_named(i: IdentifierView) -> bool {
    is_name(i.value) && i.token == TokenView::Ident(i.value)
}

/// Whether a type expression can be spelled: it holds no missing type, and
/// every declared type in it is named.
pub open spec fn is_type(t: DataTypeStatementView) -> bool
    decreases t,
{
    match t {
        DataTypeStatementView::Nothing => false,
        DataTypeStatementView::SetOf(e) => is_type(*e),
        DataTypeStatementView::List(e) => is_type(*e),
        DataTypeStatementView::MapOf(k, v) => is_type(*k) && is_type(*v),
        DataTypeStatementView::Object(i) => is_named(i),
        _ => true,
    }
}

/// The token of a type keyword.
pub open spec fn keyword(d: DataTypeView, word: Seq<char>) -> Seq<TokenView> {
    seq![TokenView::Type(d, word)]
}

/// The tokens that spell a type expression.
pub open spec fn type_tokens(t: DataTypeStatementView) -> Seq<TokenView>
    decreases t,
{
    match t {
        DataTypeStatementView::Nothing => Seq::empty(),
        DataTypeStatementView::String => keyword(DataTypeView::String, "string"@),
        DataTypeStatementView::Integer8 => keyword(DataTypeView::Integer8, "i8"@),
        DataTypeStatementView::Integer16 => keyword(DataTypeView::Integer16, "i16"@),
        DataTypeStatementView::Integer32 => keyword(DataTypeView::Integer32, "i32"@),
        DataTypeStatementView::Integer64 => keyword(DataTypeView::Integer64, "i64"@),
        DataTypeStatementView::Float32 => keyword(DataTypeView::Float32, "f32"@),
        DataTypeStatementView::Float64 => keyword(DataTypeView::Float64, "f64"@),
        DataTypeStatementView::Binary => keyword(DataTypeView::Binary, "binary"@),
        DataTypeStatementView::Date => keyword(DataTypeView::Date, "date"@),
        DataTypeStatementView::Bool => keyword(DataTypeView::Bool, "bool"@),
        DataTypeStatementView::SetOf(e) => keyword(DataTypeView::SetOf, "set"@) + seq![
            TokenView::Lt,
        ] + type_tokens(*e) + seq![TokenView::Gt],
        DataTypeStatementView::List(e) => keyword(DataTypeView::List, "list"@) + seq![
            TokenView::Lt,
        ] + type_tokens(*e) + seq![TokenView::Gt],
        DataTypeStatementView::MapOf(k, v) => keyword(DataTypeView::MapOf, "map"@) + seq![
            TokenView::Lt,
        ] + type_tokens(*k) + seq![TokenView::Comma] + type_tokens(*v) + seq![TokenView::Gt],
        DataTypeStatementView::Object(i) => seq![TokenView::Ident(i.value)],
    }
}

/// Whether a parameter can be spelled.
pub open spec fn is_parameter(p: ParameterView) -> bool {
    is_named(p.ident) && is_type(p.data_type)
}

/// The tokens of the parameters from index `k` on, with commas between them.
pub open spec fn parameters_tokens(p: Seq<ParameterView>, k: int) -> Seq<TokenView>
    decreases p.len() - k,
{
    if !(0 <= k < p.len()) {
        Seq::empty()
    } else {
        seq![TokenView::Ident(p[k].ident.value), TokenView::Colon] + type_tokens(p[k].data_type)
            + (if k + 1 < p.len() {
            seq![TokenView::Comma]
        } else {
            Seq::empty()
        }) + parameters_tokens(p, k + 1)
    }
}

/// The tokens of the return type of a function: none for a function that
/// returns nothing, else `:` and the type.
pub open spec fn return_tokens(r: DataTypeStatementView) -> Seq<TokenView> {
    if r is Nothing {
        Seq::empty()
    } else {
        seq![TokenView::Colon] + type_tokens(r)
    }
}

/// The token of a derive.
pub open spec fn derive_token(d: DeriveType) -> TokenView {
    match d {
        DeriveType::Eq => TokenView::Eq,
        _ => TokenView::Ord,
    }
}

/// The tokens of the derives from index `k` on, with commas between them.
pub open spec fn derives_tokens(d: Seq<DeriveType>, k: int) -> Seq<TokenView>
    decreases d.len() - k,
{
    if !(0 <= k < d.len()) {
        Seq::empty()
    } else {
        seq![derive_token(d[k])] + (if k + 1 < d.len() {
            seq![TokenView::Comma]
        } else {
            Seq::empty()
        }) + derives_tokens(d, k + 1)
    }
}

/// The tokens of a `deriving` clause: none if there is nothing to derive.
pub open spec fn deriving_tokens(d: Seq<DeriveType>) -> Seq<TokenView> {
    if d.len() == 0 {
        Seq::empty()
    } else {
        seq![TokenView::Dervive, TokenView::LParen] + derives_tokens(d, 0) + seq![
            TokenView::RParen,
        ]
    }
}

/// Whether every derive is `eq` or `ord`.
pub open spec fn are_derives(d: Seq<DeriveType>) -> bool {
    forall|k: int| 0 <= k < d.len() ==> #[trigger] d[k] != DeriveType::Nothing
}

/// The token of a target.
pub open spec fn target_token(t: InterfaceType) -> TokenView {
    match t {
        InterfaceType::Java => TokenView::JavaInterface,
        InterfaceType::ObjectiveC => TokenView::ObjCInterface,
        InterfaceType::Cpp => TokenView::CppInterface,
    }
}

/// The tokens of the targets from index `k` on.
pub open spec fn targets_tokens(t: Seq<InterfaceType>, k: int) -> Seq<TokenView>
    decreases t.len() - k,
{
    if !(0 <= k < t.len()) {
        Seq::empty()
    } else {
        seq![target_token(t[k])] + targets_tokens(t, k + 1)
    }
}

/// The places in which a statement can stand.
pub ghost enum Place {
    /// The top level of a program.
    Top,
    /// The body of an enum.
    EnumBody,
    /// The body of a record.
    RecordBody,
    /// The body of an interface.
    InterfaceBody,
    /// The value of a constant or of a definition.
    Value,
    /// A block of definitions.
    Definitions,
}

/// Whether the statement `s` can be spelled in the place `place`.
///
/// Its tokens are those of its kind, its names are names, its types can be
/// spelled, a string holds no double quote, a comment no line break, and a
/// number is made of digits and dots. An import, an enum, a record and an
/// interface stand at the top level; an option in an enum, a field in a
/// record, a function in an interface, a constant in a record or an
/// interface, and a comment in any of these.
pub open spec fn is_statement(s: StatementView, place: Place) -> bool
    decreases s, 0nat,
{
    match s {
        StatementView::Import(t, path) => place is Top && t == TokenView::Import && is_quotable(
            path,
        ),
        StatementView::Comment(t, text) => (place is Top || place is EnumBody
            || place is RecordBody || place is InterfaceBody) && t == TokenView::Comment(text)
            && is_remark(text),
        StatementView::Enum(t, i, b) => place is Top && t == TokenView::Enum && is_named(i)
            && b.token == TokenView::Enum && are_statements(b.statements, Place::EnumBody),
        StatementView::Record(t, i, b, d) => place is Top && t == TokenView::Record && is_named(i)
            && b.token == TokenView::Record && are_statements(b.statements, Place::RecordBody)
            && are_derives(d),
        StatementView::Interface(t, i, _, b, d) => place is Top && t == TokenView::Interface
            && is_named(i) && b.token == TokenView::Interface && are_statements(
            b.statements,
            Place::InterfaceBody,
        ) && are_derives(d),
        StatementView::EnumMember(t, i) => place is EnumBody && is_named(i) && t == i.token,
        StatementView::RecordMember(t, i, ty) => place is RecordBody && is_named(i) && t == i.token
            && is_type(ty),
        StatementView::Function(t, _, i, p, r) => place is InterfaceBody && is_named(i) && t
            == i.token && (forall|k: int| 0 <= k < p.len() ==> is_parameter(#[trigger] p[k])) && (
        r is Nothing || is_type(r)),
        StatementView::Const(t, i, ty, v) => (place is RecordBody || place is InterfaceBody) && t
            == TokenView::Const && is_named(i) && is_type(ty) && is_statement(*v, Place::Value),
        StatementView::StringLiteral(t, text) => place is Value && t == TokenView::StringToken(text)
            && is_quotable(text),
        StatementView::NumberLiteral(t, text) => place is Value && t == TokenView::Number(text)
            && is_number(text),
        StatementView::Boolean(t, b) => place is Value && t == (if b {
            TokenView::True
        } else {
            TokenView::False
        }),
        StatementView::Block(b) => place is Value && b.token == TokenView::Const && are_statements(
            b.statements,
            Place::Definitions,
        ),
        StatementView::Definition(i, v) => place is Definitions && is_named(i) && is_statement(
            *v,
            Place::Value,
        ),
        _ => false,
    }
}

/// Whether every statement of `v` can be spelled in the place `place`.
pub open spec fn are_statements(v: Seq<StatementView>, place: Place) -> bool
    decreases v, 1nat,
{
    v.len() == 0 || (is_statement(v.first(), place) && are_statements(v.drop_first(), place))
}

/// The tokens that spell a statement.
pub open spec fn statement_tokens(s: StatementView) -> Seq<TokenView>
    decreases s, 0nat,
{
    match s {
        StatementView::Import(_, path) => seq![
            TokenView::AtSign,
            TokenView::Import,
            TokenView::StringToken(path),
        ],
        StatementView::Comment(_, text) => seq![TokenView::Comment(text)],
        StatementView::Enum(_, i, b) => seq![
            TokenView::Ident(i.value),
            TokenView::Equal,
            TokenView::Enum,
            TokenView::LBrace,
        ] + block_tokens(b.statements) + seq![TokenView::RBrace],
        StatementView::Record(_, i, b, d) => seq![
            TokenView::Ident(i.value),
            TokenView::Equal,
            TokenView::Record,
            TokenView::LBrace,
        ] + block_tokens(b.statements) + seq![TokenView::RBrace] + deriving_tokens(d),
        StatementView::Interface(_, i, targets, b, d) => seq![
            TokenView::Ident(i.value),
            TokenView::Equal,
            TokenView::Interface,
        ] + targets_tokens(targets, 0) + seq![TokenView::LBrace] + block_tokens(b.statements)
            + seq![TokenView::RBrace] + deriving_tokens(d),
        StatementView::EnumMember(_, i) => seq![TokenView::Ident(i.value), TokenView::Semicolon],
        StatementView::RecordMember(_, i, ty) => seq![TokenView::Ident(i.value), TokenView::Colon]
            + type_tokens(ty) + seq![TokenView::Semicolon],
        StatementView::Function(_, m, i, p, r) => (if m == FunctionModifier::Nothing {
            Seq::empty()
        } else {
            seq![TokenView::Static]
        }) + seq![TokenView::Ident(i.value), TokenView::LParen] + parameters_tokens(p, 0) + seq![
            TokenView::RParen,
        ] + return_tokens(r) + seq![TokenView::Semicolon],
        StatementView::Const(_, i, ty, v) => seq![
            TokenView::Const,
            TokenView::Ident(i.value),
            TokenView::Colon,
        ] + type_tokens(ty) + seq![TokenView::Equal] + statement_tokens(*v) + seq![
            TokenView::Semicolon,
        ],
        StatementView::StringLiteral(_, text) => seq![TokenView::StringToken(text)],
        StatementView::NumberLiteral(_, text) => seq![TokenView::Number(text)],
        StatementView::Boolean(_, b) => seq![
            if b {
                TokenView::True
            } else {
                TokenView::False
            },
        ],
        StatementView::Block(b) => seq![TokenView::LBrace] + block_tokens(b.statements) + seq![
            TokenView::RBrace,
        ],
        StatementView::Definition(i, v) => seq![TokenView::Ident(i.value), TokenView::Equal]
            + statement_tokens(*v) + seq![TokenView::Comma],
        _ => Seq::empty(),
    }
}

/// The tokens that spell the statements of `v`, one after the other.
pub open spec fn block_tokens(v: Seq<StatementView>) -> Seq<TokenView>
    decreases v, 1nat,
{
    if v.len() == 0 {
        Seq::empty()
    } else {
        statement_tokens(v.first()) + block_tokens(v.drop_first())
    }
}

/// The tokens that spell a program: those of its statements, and the end
/// of the text.
pub open spec fn program_tokens(p: Seq<StatementView>) -> Seq<TokenView> {
    block_tokens(p) + seq![TokenView::Eof]
}

/// Whether a program can be spelled: each of its statements can, at the top level.
pub open spec fn is_program(p: Seq<StatementView>) -> bool {
    are_statements(p, Place::Top)
}

} // verus!
