//! What the parser makes of a stream of tokens, as functions on sequences.
//!
//! Every function takes the whole stream and the index of the token under
//! the cursor, and says what is built, how many tokens the cursor moves, and
//! which tokens were found where others were required.

use crate::parser::ast::{
    type_of_kind, BlockView, DataTypeStatementView, DeriveType, FunctionModifier, IdentifierView,
    InterfaceType, ParameterView, StatementView,
};
use crate::parser::token::{token_name, DataTypeView, TokenView};
use vstd::prelude::*;

verus! {

/// Model of a parse error: the token that was required, the token that was
/// found, and the index of the found token in the stream.
pub ghost struct ParseErrorView {
    pub expected: TokenView,
    pub actual: TokenView,
    pub position: int,
}

/// The outcome of parsing one construct.
pub ghost struct Parsed<T> {
    /// What was built.
    pub value: T,
    /// How many tokens the cursor moved.
    pub used: nat,
    /// The errors found on the way, in the order of the text.
    pub errors: Seq<ParseErrorView>,
}

/// The token at index `i`; behind the end of the stream every token is `Eof`.
pub open spec fn tok(ts: Seq<TokenView>, i: int) -> TokenView {
    if 0 <= i < ts.len() {
        ts[i]
    } else {
        TokenView::Eof
    }
}

/// How many tokens are left from index `i` on.
pub open spec fn left(ts: Seq<TokenView>, i: int) -> nat {
    if i < ts.len() {
        (ts.len() - i) as nat
    } else {
        0
    }
}

/// The error of finding the token at index `at` where `expected` was required.
pub open spec fn mismatch(ts: Seq<TokenView>, at: int, expected: TokenView) -> ParseErrorView {
    ParseErrorView {
        expected,
        actual: tok(ts, at),
        position: if at < ts.len() - 1 {
            at
        } else {
            ts.len() - 1
        },
    }
}

/// Nothing built, no token taken, no error.
pub open spec fn nothing<T>() -> Parsed<Seq<T>> {
    Parsed { value: Seq::empty(), used: 0, errors: Seq::empty() }
}

/// One item built without moving the cursor.
pub open spec fn one<T>(item: T) -> Parsed<Seq<T>> {
    Parsed { value: seq![item], used: 0, errors: Seq::empty() }
}

/// Nothing built, with the error of finding the token at `at` where `expected` was required.
pub open spec fn failed<T>(ts: Seq<TokenView>, at: int, expected: TokenView) -> Parsed<Seq<T>> {
    Parsed { value: Seq::empty(), used: 0, errors: seq![mismatch(ts, at, expected)] }
}

/// One round of a loop followed by the rest of the loop: the cursor moves one
/// token further between the two.
pub open spec fn chain<T>(head: Parsed<Seq<T>>, rest: Parsed<Seq<T>>) -> Parsed<Seq<T>> {
    Parsed {
        value: head.value + rest.value,
        used: head.used + 1 + rest.used,
        errors: head.errors + rest.errors,
    }
}

/// Requiring `expected` as the token behind the cursor: the cursor moves onto
/// it if it is there, and stays with an error if it is not.
pub open spec fn expect_spec(ts: Seq<TokenView>, i: int, expected: TokenView) -> Parsed<bool> {
    if tok(ts, i + 1) == expected {
        Parsed { value: true, used: 1, errors: Seq::empty() }
    } else {
        Parsed { value: false, used: 0, errors: seq![mismatch(ts, i + 1, expected)] }
    }
}

/// The identifier that a token gives when it names a member: its text for a
/// name, and the empty text for any other token.
pub open spec fn ident_string(t: TokenView) -> Seq<char> {
    match t {
        TokenView::Ident(s) => s,
        _ => Seq::empty(),
    }
}

/// The identifier of a declaration whose name is the token `t`.
pub open spec fn declared_name(t: TokenView) -> IdentifierView {
    IdentifierView { token: t, value: token_name(t) }
}

/// The type that one token names by itself: the type of a keyword's kind, a
/// declared type for a name, and no type for any other token.
pub open spec fn simple_type(t: TokenView) -> DataTypeStatementView {
    match t {
        TokenView::Type(d, _) => type_of_kind(d),
        TokenView::Ident(s) => DataTypeStatementView::Object(IdentifierView { token: t, value: s }),
        _ => DataTypeStatementView::Nothing,
    }
}

/// The kinds that take type arguments in angle brackets.
pub open spec fn is_container(d: DataTypeView) -> bool {
    d is List || d is SetOf || d is MapOf
}

/// A type expression whose first token is under the cursor.
///
/// Without `<` behind it the token stands for itself. With `<`, the type
/// arguments follow and the closing `>` is required; the cursor ends on it.
/// Where the `>` is missing the type is no type, with an error.
pub open spec fn type_spec(ts: Seq<TokenView>, i: int) -> Parsed<DataTypeStatementView>
    decreases left(ts, i), 0nat,
{
    if tok(ts, i + 1) != TokenView::Lt {
        Parsed { value: simple_type(tok(ts, i)), used: 0, errors: Seq::empty() }
    } else {
        let body = arguments_spec(ts, tok(ts, i), i + 2);
        let j = i + 2 + body.used;
        if tok(ts, j + 1) == TokenView::Gt {
            Parsed { value: body.value, used: 2 + body.used + 1, errors: body.errors }
        } else {
            Parsed {
                value: DataTypeStatementView::Nothing,
                used: 2 + body.used,
                errors: body.errors.push(mismatch(ts, j + 1, TokenView::Gt)),
            }
        }
    }
}

/// The type that `head` makes with the type arguments that start at index `j`.
///
/// A list or a set takes one argument. A map takes two with a comma between
/// them; without the comma it is no type, with an error. Any other keyword
/// stands for itself, and a name for a declared type.
pub open spec fn arguments_spec(ts: Seq<TokenView>, head: TokenView, j: int) -> Parsed<
    DataTypeStatementView,
>
    decreases left(ts, j), 2nat,
{
    match head {
        TokenView::Type(d, _) => match d {
            DataTypeView::MapOf => {
                let key = generic_spec(ts, j);
                let k = j + key.used;
                if tok(ts, k + 1) == TokenView::Comma {
                    let value = generic_spec(ts, k + 2);
                    Parsed {
                        value: DataTypeStatementView::MapOf(
                            Box::new(key.value),
                            Box::new(value.value),
                        ),
                        used: key.used + 2 + value.used,
                        errors: key.errors + value.errors,
                    }
                } else {
                    Parsed {
                        value: DataTypeStatementView::Nothing,
                        used: key.used,
                        errors: key.errors.push(mismatch(ts, k + 1, TokenView::Comma)),
                    }
                }
            },
            DataTypeView::List => {
                let e = generic_spec(ts, j);
                Parsed {
                    value: DataTypeStatementView::List(Box::new(e.value)),
                    used: e.used,
                    errors: e.errors,
                }
            },
            DataTypeView::SetOf => {
                let e = generic_spec(ts, j);
                Parsed {
                    value: DataTypeStatementView::SetOf(Box::new(e.value)),
                    used: e.used,
                    errors: e.errors,
                }
            },
            _ => Parsed { value: type_of_kind(d), used: 0, errors: Seq::empty() },
        },
        TokenView::Ident(s) => Parsed {
            value: DataTypeStatementView::Object(IdentifierView { token: tok(ts, j), value: s }),
            used: 0,
            errors: Seq::empty(),
        },
        _ => Parsed { value: DataTypeStatementView::Nothing, used: 0, errors: Seq::empty() },
    }
}

/// A type argument whose first token is under the cursor: a type expression
/// for a list, a set or a map, else the type that the token names by itself.
pub open spec fn generic_spec(ts: Seq<TokenView>, i: int) -> Parsed<DataTypeStatementView>
    decreases left(ts, i), 1nat,
{
    match tok(ts, i) {
        TokenView::Type(d, _) => if is_container(d) {
            type_spec(ts, i)
        } else {
            Parsed { value: type_of_kind(d), used: 0, errors: Seq::empty() }
        },
        _ => Parsed { value: simple_type(tok(ts, i)), used: 0, errors: Seq::empty() },
    }
}

/// The return type of a function; the cursor is on the `)` of its parameters.
///
/// With `:` behind the `)` a type follows and `;` is required behind it; the
/// cursor ends on the `;`. Without `:` the function returns nothing, and the
/// cursor moves one token.
pub open spec fn return_type_spec(ts: Seq<TokenView>, i: int) -> Parsed<DataTypeStatementView> {
    if tok(ts, i + 1) == TokenView::Colon {
        let t = type_spec(ts, i + 2);
        let j = i + 2 + t.used;
        if tok(ts, j + 1) == TokenView::Semicolon {
            Parsed { value: t.value, used: 2 + t.used + 1, errors: t.errors }
        } else {
            Parsed {
                value: DataTypeStatementView::Nothing,
                used: 2 + t.used,
                errors: t.errors.push(mismatch(ts, j + 1, TokenView::Semicolon)),
            }
        }
    } else {
        Parsed { value: DataTypeStatementView::Nothing, used: 1, errors: Seq::empty() }
    }
}

/// One round over the parameters of a function: a name with `:` and a type
/// is a parameter, and a comma behind it is passed over; a name without `:`
/// is an error; any other token is passed over.
pub open spec fn parameter_spec(ts: Seq<TokenView>, i: int) -> Parsed<Seq<ParameterView>> {
    match tok(ts, i) {
        TokenView::Ident(s) => if tok(ts, i + 1) == TokenView::Colon {
            let t = type_spec(ts, i + 2);
            let j = i + 2 + t.used;
            Parsed {
                value: seq![
                    ParameterView {
                        ident: IdentifierView { token: tok(ts, i), value: s },
                        data_type: t.value,
                    },
                ],
                used: 2 + t.used + if tok(ts, j + 1) == TokenView::Comma {
                    1nat
                } else {
                    0nat
                },
                errors: t.errors,
            }
        } else {
            failed(ts, i + 1, TokenView::Colon)
        },
        _ => nothing(),
    }
}

/// The parameters from the cursor up to the closing `)`, on which the cursor
/// ends. The end of the stream before the `)` is an error.
pub open spec fn parameters_loop(ts: Seq<TokenView>, i: int) -> Parsed<Seq<ParameterView>>
    decreases left(ts, i),
{
    if tok(ts, i) == TokenView::RParen {
        nothing()
    } else if tok(ts, i) is Eof {
        failed(ts, i, TokenView::RParen)
    } else {
        let head = parameter_spec(ts, i);
        chain(head, parameters_loop(ts, i + head.used + 1))
    }
}

/// The parameters of a function; the cursor is on the token behind the `(`.
pub open spec fn parameters_spec(ts: Seq<TokenView>, i: int) -> Parsed<Seq<ParameterView>> {
    if tok(ts, i + 1) == TokenView::RParen {
        Parsed { value: Seq::empty(), used: 1, errors: Seq::empty() }
    } else {
        parameters_loop(ts, i)
    }
}

/// The statement of a comment token; the empty statement for any other token.
pub open spec fn comment_spec(t: TokenView) -> StatementView {
    match t {
        TokenView::Comment(s) => StatementView::Comment(t, s),
        _ => StatementView::Noop,
    }
}

/// The value of a constant whose first token is under the cursor: a string,
/// a boolean, a number, or a block of definitions in braces. Any other token
/// gives the empty statement.
pub open spec fn const_value_spec(ts: Seq<TokenView>, i: int) -> Parsed<StatementView>
    decreases left(ts, i), 1nat,
{
    let t = tok(ts, i);
    match t {
        TokenView::StringToken(s) => Parsed {
            value: StatementView::StringLiteral(t, s),
            used: 0,
            errors: Seq::empty(),
        },
        TokenView::True => Parsed {
            value: StatementView::Boolean(t, true),
            used: 0,
            errors: Seq::empty(),
        },
        TokenView::False => Parsed {
            value: StatementView::Boolean(t, false),
            used: 0,
            errors: Seq::empty(),
        },
        TokenView::Number(s) => Parsed {
            value: StatementView::NumberLiteral(t, s),
            used: 0,
            errors: Seq::empty(),
        },
        TokenView::LBrace => {
            let entries = const_entries_spec(ts, i + 1);
            Parsed {
                value: match entries.value {
                    Some(statements) => StatementView::Block(
                        BlockView { token: TokenView::Const, statements },
                    ),
                    None => StatementView::Noop,
                },
                used: 1 + entries.used,
                errors: entries.errors,
            }
        },
        _ => Parsed { value: StatementView::Noop, used: 0, errors: Seq::empty() },
    }
}

/// The definitions `key = value` of a block, from the cursor up to the closing
/// `}`, on which the cursor ends; a comma behind a value is passed over.
///
/// A key without `=` ends the block with an error and gives `None`. The end
/// of the stream before the `}` is an error.
pub open spec fn const_entries_spec(ts: Seq<TokenView>, k: int) -> Parsed<
    Option<Seq<StatementView>>,
>
    decreases left(ts, k), 0nat,
{
    if tok(ts, k) == TokenView::RBrace {
        Parsed { value: Some(Seq::empty()), used: 0, errors: Seq::empty() }
    } else if tok(ts, k) is Eof {
        Parsed {
            value: Some(Seq::empty()),
            used: 0,
            errors: seq![mismatch(ts, k, TokenView::RBrace)],
        }
    } else if tok(ts, k + 1) != TokenView::Equal {
        Parsed { value: None, used: 0, errors: seq![mismatch(ts, k + 1, TokenView::Equal)] }
    } else {
        let value = const_value_spec(ts, k + 2);
        let m = k + 2 + value.used;
        let step: nat = if tok(ts, m + 1) == TokenView::Comma {
            2
        } else {
            1
        };
        let rest = const_entries_spec(ts, m + step);
        let definition = StatementView::Definition(
            IdentifierView { token: tok(ts, k), value: ident_string(tok(ts, k)) },
            Box::new(value.value),
        );
        Parsed {
            value: match rest.value {
                Some(more) => Some(seq![definition] + more),
                None => None,
            },
            used: 2 + value.used + step + rest.used,
            errors: value.errors + rest.errors,
        }
    }
}

/// A constant `const name: type = value`; the cursor is on `const` and ends
/// on the last token of the value. Where `:` or `=` is missing the statement
/// is empty, with an error.
pub open spec fn const_statement_spec(ts: Seq<TokenView>, i: int) -> Parsed<StatementView> {
    let name = tok(ts, i + 1);
    if tok(ts, i + 2) != TokenView::Colon {
        Parsed {
            value: StatementView::Noop,
            used: 1,
            errors: seq![mismatch(ts, i + 2, TokenView::Colon)],
        }
    } else {
        let t = type_spec(ts, i + 3);
        let j = i + 3 + t.used;
        if tok(ts, j + 1) != TokenView::Equal {
            Parsed {
                value: StatementView::Noop,
                used: 3 + t.used,
                errors: t.errors.push(mismatch(ts, j + 1, TokenView::Equal)),
            }
        } else {
            let v = const_value_spec(ts, j + 2);
            Parsed {
                value: StatementView::Const(
                    tok(ts, i),
                    IdentifierView { token: name, value: ident_string(name) },
                    t.value,
                    Box::new(v.value),
                ),
                used: 3 + t.used + 2 + v.used,
                errors: t.errors + v.errors,
            }
        }
    }
}

/// One round over the body of an enum: a name with `;` behind it is a member,
/// a comment is kept, any other token is passed over.
pub open spec fn enum_member_spec(ts: Seq<TokenView>, i: int) -> Parsed<Seq<StatementView>> {
    let t = tok(ts, i);
    match t {
        TokenView::Ident(s) => if tok(ts, i + 1) == TokenView::Semicolon {
            one(StatementView::EnumMember(t, IdentifierView { token: t, value: s }))
        } else {
            nothing()
        },
        TokenView::Comment(_) => one(comment_spec(t)),
        _ => nothing(),
    }
}

/// The body of an enum from the cursor up to the closing `}`, on which the
/// cursor ends. The end of the stream before the `}` is an error.
pub open spec fn enum_body_spec(ts: Seq<TokenView>, i: int) -> Parsed<Seq<StatementView>>
    decreases left(ts, i),
{
    if tok(ts, i) == TokenView::RBrace {
        nothing()
    } else if tok(ts, i) is Eof {
        failed(ts, i, TokenView::RBrace)
    } else {
        let head = enum_member_spec(ts, i);
        chain(head, enum_body_spec(ts, i + head.used + 1))
    }
}

/// One round over the body of a record: a name with `:` and a type is a
/// field, a name without `:` is an error; a comment is kept; `const` starts a
/// constant; any other token is passed over.
pub open spec fn record_member_spec(ts: Seq<TokenView>, i: int) -> Parsed<Seq<StatementView>> {
    let t = tok(ts, i);
    match t {
        TokenView::Ident(s) => if tok(ts, i + 1) == TokenView::Colon {
            let ty = type_spec(ts, i + 2);
            Parsed {
                value: seq![
                    StatementView::RecordMember(t, IdentifierView { token: t, value: s }, ty.value),
                ],
                used: 2 + ty.used,
                errors: ty.errors,
            }
        } else {
            failed(ts, i + 1, TokenView::Colon)
        },
        TokenView::Comment(_) => one(comment_spec(t)),
        TokenView::Const => {
            let c = const_statement_spec(ts, i);
            Parsed { value: seq![c.value], used: c.used, errors: c.errors }
        },
        _ => nothing(),
    }
}

/// The body of a record from the cursor up to the closing `}`, on which the
/// cursor ends. The end of the stream before the `}` is an error.
pub open spec fn record_body_spec(ts: Seq<TokenView>, i: int) -> Parsed<Seq<StatementView>>
    decreases left(ts, i),
{
    if tok(ts, i) == TokenView::RBrace {
        nothing()
    } else if tok(ts, i) is Eof {
        failed(ts, i, TokenView::RBrace)
    } else {
        let head = record_member_spec(ts, i);
        chain(head, record_body_spec(ts, i + head.used + 1))
    }
}

/// A function whose name is under the cursor: `(` is required behind the
/// name, then come the parameters and the return type. The function takes
/// the modifier `m`.
pub open spec fn function_spec(ts: Seq<TokenView>, i: int, m: FunctionModifier) -> Parsed<
    Seq<StatementView>,
> {
    let t = tok(ts, i);
    if tok(ts, i + 1) == TokenView::LParen {
        let p = parameters_spec(ts, i + 2);
        let r = return_type_spec(ts, i + 2 + p.used);
        Parsed {
            value: seq![
                StatementView::Function(
                    t,
                    m,
                    IdentifierView { token: t, value: ident_string(t) },
                    p.value,
                    r.value,
                ),
            ],
            used: 2 + p.used + r.used,
            errors: p.errors + r.errors,
        }
    } else {
        failed(ts, i + 1, TokenView::LParen)
    }
}

/// One round over the body of an interface: a name starts a function, which
/// takes the modifier `m`; a comment is kept; `const` starts a constant; any
/// other token is passed over.
pub open spec fn interface_member_spec(ts: Seq<TokenView>, i: int, m: FunctionModifier) -> Parsed<
    Seq<StatementView>,
> {
    let t = tok(ts, i);
    match t {
        TokenView::Ident(_) => function_spec(ts, i, m),
        TokenView::Comment(_) => one(comment_spec(t)),
        TokenView::Const => {
            let c = const_statement_spec(ts, i);
            Parsed { value: seq![c.value], used: c.used, errors: c.errors }
        },
        _ => nothing(),
    }
}

/// The modifier that the next function takes after one round over the body
/// of an interface: `static` sets it, and a function uses it up.
pub open spec fn modifier_after(ts: Seq<TokenView>, i: int, m: FunctionModifier)
    -> FunctionModifier {
    match tok(ts, i) {
        TokenView::Static => FunctionModifier::Static,
        TokenView::Ident(_) => if tok(ts, i + 1) == TokenView::LParen {
            FunctionModifier::Nothing
        } else {
            m
        },
        _ => m,
    }
}

/// The body of an interface from the cursor up to the closing `}`, on which
/// the cursor ends. The end of the stream before the `}` is an error.
pub open spec fn interface_body_spec(ts: Seq<TokenView>, i: int, m: FunctionModifier) -> Parsed<
    Seq<StatementView>,
>
    decreases left(ts, i),
{
    if tok(ts, i) == TokenView::RBrace {
        nothing()
    } else if tok(ts, i) is Eof {
        failed(ts, i, TokenView::RBrace)
    } else {
        let head = interface_member_spec(ts, i, m);
        chain(head, interface_body_spec(ts, i + head.used + 1, modifier_after(ts, i, m)))
    }
}

/// The target that a tag asks for; any other token asks for none.
pub open spec fn target_spec(t: TokenView) -> Parsed<Seq<InterfaceType>> {
    match t {
        TokenView::JavaInterface => one(InterfaceType::Java),
        TokenView::ObjCInterface => one(InterfaceType::ObjectiveC),
        TokenView::CppInterface => one(InterfaceType::Cpp),
        _ => nothing(),
    }
}

/// The targets of an interface from the cursor up to the `{` of its body, on
/// which the cursor ends. The end of the stream before the `{` is an error.
pub open spec fn targets_spec(ts: Seq<TokenView>, i: int) -> Parsed<Seq<InterfaceType>>
    decreases left(ts, i),
{
    if tok(ts, i) == TokenView::LBrace {
        nothing()
    } else if tok(ts, i) is Eof {
        failed(ts, i, TokenView::LBrace)
    } else {
        chain(target_spec(tok(ts, i)), targets_spec(ts, i + 1))
    }
}

/// One round over a `deriving` clause: `eq` and `ord` are kept, any other
/// token is passed over, and so is a comma behind the token.
pub open spec fn derive_spec(ts: Seq<TokenView>, i: int) -> Parsed<Seq<DeriveType>> {
    Parsed {
        value: match tok(ts, i) {
            TokenView::Eq => seq![DeriveType::Eq],
            TokenView::Ord => seq![DeriveType::Ord],
            _ => Seq::empty(),
        },
        used: if tok(ts, i + 1) == TokenView::Comma {
            1
        } else {
            0
        },
        errors: Seq::empty(),
    }
}

/// The derives from the cursor up to the closing `)`, on which the cursor
/// ends. The end of the stream before the `)` is an error.
pub open spec fn derives_loop(ts: Seq<TokenView>, i: int) -> Parsed<Seq<DeriveType>>
    decreases left(ts, i),
{
    if tok(ts, i) == TokenView::RParen {
        nothing()
    } else if tok(ts, i) is Eof {
        failed(ts, i, TokenView::RParen)
    } else {
        let head = derive_spec(ts, i);
        chain(head, derives_loop(ts, i + head.used + 1))
    }
}

/// The `deriving` clause behind a body; the cursor is on the `}` of the body.
/// Without the word `deriving` there is none. With it, `(` is required.
pub open spec fn derives_spec(ts: Seq<TokenView>, i: int) -> Parsed<Seq<DeriveType>> {
    if tok(ts, i + 1) == TokenView::Dervive {
        if tok(ts, i + 2) == TokenView::LParen {
            let d = derives_loop(ts, i + 3);
            Parsed { value: d.value, used: 3 + d.used, errors: d.errors }
        } else {
            Parsed {
                value: Seq::empty(),
                used: 1,
                errors: seq![mismatch(ts, i + 2, TokenView::LParen)],
            }
        }
    } else {
        nothing()
    }
}

/// An enum; the cursor is on the `{` of its body and `name` is the token of its name.
pub open spec fn enum_statement_spec(ts: Seq<TokenView>, name: TokenView, i: int) -> Parsed<
    StatementView,
> {
    let body = enum_body_spec(ts, i);
    Parsed {
        value: StatementView::Enum(
            TokenView::Enum,
            declared_name(name),
            BlockView { token: TokenView::Enum, statements: body.value },
        ),
        used: body.used,
        errors: body.errors,
    }
}

/// A record; the cursor is on the `{` of its body and `name` is the token of its name.
pub open spec fn record_statement_spec(ts: Seq<TokenView>, name: TokenView, i: int) -> Parsed<
    StatementView,
> {
    let body = record_body_spec(ts, i);
    let derives = derives_spec(ts, i + body.used);
    Parsed {
        value: StatementView::Record(
            TokenView::Record,
            declared_name(name),
            BlockView { token: TokenView::Record, statements: body.value },
            derives.value,
        ),
        used: body.used + derives.used,
        errors: body.errors + derives.errors,
    }
}

/// An interface; the cursor is on the token behind the word `interface` and
/// `name` is the token of its name.
pub open spec fn interface_statement_spec(ts: Seq<TokenView>, name: TokenView, i: int) -> Parsed<
    StatementView,
> {
    let targets = targets_spec(ts, i);
    let body = interface_body_spec(ts, i + targets.used, FunctionModifier::Nothing);
    let derives = derives_spec(ts, i + targets.used + body.used);
    Parsed {
        value: StatementView::Interface(
            TokenView::Interface,
            declared_name(name),
            targets.value,
            BlockView { token: TokenView::Interface, statements: body.value },
            derives.value,
        ),
        used: targets.used + body.used + derives.used,
        errors: targets.errors + body.errors + derives.errors,
    }
}

/// A declaration `name = ...`; the cursor is on the token of the name.
///
/// Without `=` behind the name there is no statement and the cursor stays.
/// Behind the `=`, `enum` and `record` require `{` and start a body;
/// `interface` starts its targets; any other token gives the empty statement.
pub open spec fn declaration_spec(ts: Seq<TokenView>, i: int) -> Parsed<Option<StatementView>> {
    if tok(ts, i + 1) != TokenView::Equal {
        Parsed { value: None, used: 0, errors: Seq::empty() }
    } else {
        match tok(ts, i + 2) {
            TokenView::Enum => if tok(ts, i + 3) == TokenView::LBrace {
                let e = enum_statement_spec(ts, tok(ts, i), i + 3);
                Parsed { value: Some(e.value), used: 3 + e.used, errors: e.errors }
            } else {
                Parsed {
                    value: None,
                    used: 2,
                    errors: seq![mismatch(ts, i + 3, TokenView::LBrace)],
                }
            },
            TokenView::Record => if tok(ts, i + 3) == TokenView::LBrace {
                let r = record_statement_spec(ts, tok(ts, i), i + 3);
                Parsed { value: Some(r.value), used: 3 + r.used, errors: r.errors }
            } else {
                Parsed {
                    value: None,
                    used: 2,
                    errors: seq![mismatch(ts, i + 3, TokenView::LBrace)],
                }
            },
            TokenView::Interface => {
                let f = interface_statement_spec(ts, tok(ts, i), i + 3);
                Parsed { value: Some(f.value), used: 3 + f.used, errors: f.errors }
            },
            _ => Parsed { value: Some(StatementView::Noop), used: 2, errors: Seq::empty() },
        }
    }
}

/// The token that stands for a string of any content where one is required.
pub open spec fn any_string() -> TokenView {
    TokenView::StringToken(Seq::empty())
}

/// An import `@import "path"`; the cursor is on the `@` and ends on the
/// path. The word `import` and the path are required: where one is missing
/// there is no statement, and the cursor ends before the token that was found.
pub open spec fn import_spec(ts: Seq<TokenView>, i: int) -> Parsed<Option<StatementView>> {
    if tok(ts, i + 1) != TokenView::Import {
        Parsed { value: None, used: 0, errors: seq![mismatch(ts, i + 1, TokenView::Import)] }
    } else {
        match tok(ts, i + 2) {
            TokenView::StringToken(path) => Parsed {
                value: Some(StatementView::Import(tok(ts, i + 1), path)),
                used: 2,
                errors: Seq::empty(),
            },
            _ => Parsed { value: None, used: 1, errors: seq![mismatch(ts, i + 2, any_string())] },
        }
    }
}

/// A top-level statement whose first token is under the cursor: an import
/// for `@`, a comment, or else a declaration.
pub open spec fn statement_spec(ts: Seq<TokenView>, i: int) -> Parsed<Option<StatementView>> {
    let t = tok(ts, i);
    match t {
        TokenView::AtSign => import_spec(ts, i),
        TokenView::Comment(_) => Parsed {
            value: Some(comment_spec(t)),
            used: 0,
            errors: Seq::empty(),
        },
        _ => declaration_spec(ts, i),
    }
}

/// One round over the top level: the statement under the cursor is kept if
/// there is one and it parsed without an error.
pub open spec fn top_level_spec(ts: Seq<TokenView>, i: int) -> Parsed<Seq<StatementView>> {
    let s = statement_spec(ts, i);
    Parsed {
        value: match s.value {
            Some(statement) => if s.errors.len() == 0 {
                seq![statement]
            } else {
                Seq::empty()
            },
            None => Seq::empty(),
        },
        used: s.used,
        errors: s.errors,
    }
}

/// The program from the cursor up to the end of the stream: the top-level
/// statements that parsed without an error, in the order of the text, and the
/// errors of those that did not.
pub open spec fn program_spec(ts: Seq<TokenView>, i: int) -> Parsed<Seq<StatementView>>
    decreases left(ts, i),
{
    if tok(ts, i) is Eof {
        nothing()
    } else {
        let head = top_level_spec(ts, i);
        chain(head, program_spec(ts, i + head.used + 1))
    }
}

} // verus!
