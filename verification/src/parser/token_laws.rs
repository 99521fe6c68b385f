//! The parser reads back the tokens that spell a syntax tree.

use crate::parser::ast::{
    DataTypeStatementView, DeriveType, FunctionModifier, IdentifierView, InterfaceType,
    ParameterView, StatementView,
};
use crate::parser::grammar::{
    arguments_spec, chain, const_entries_spec, const_statement_spec, const_value_spec,
    declaration_spec, derive_spec, derives_loop, derives_spec, enum_body_spec, enum_member_spec,
    enum_statement_spec, function_spec, generic_spec, import_spec, interface_body_spec,
    interface_member_spec, interface_statement_spec, modifier_after, nothing, parameter_spec,
    parameters_loop, parameters_spec, program_spec, record_body_spec, record_member_spec,
    record_statement_spec, return_type_spec, statement_spec, target_spec, targets_spec, tok,
    top_level_spec, type_spec, ParseErrorView, Parsed,
};
use crate::parser::token::{DataTypeView, TokenView};
use crate::parser::unparse::{
    are_derives, are_statements, block_tokens, derive_token, derives_tokens, deriving_tokens,
    is_parameter, is_program, is_statement, is_type, keyword, parameters_tokens, program_tokens,
    return_tokens, statement_tokens, target_token, targets_tokens, type_tokens, Place,
};
use vstd::prelude::*;

verus! {

/// The tokens `pat` stand in `ts` from index `i` on.
pub open spec fn matches_at(ts: Seq<TokenView>, i: int, pat: Seq<TokenView>) -> bool {
    &&& 0 <= i
    &&& i + pat.len() <= ts.len()
    &&& forall|k: int| 0 <= k < pat.len() ==> ts[i + k] == #[trigger] pat[k]
}

/// Where two runs of tokens stand one after the other, each of them stands.
pub proof fn lemma_matches_split(ts: Seq<TokenView>, i: int, a: Seq<TokenView>, b: Seq<TokenView>)
    requires
        matches_at(ts, i, a + b),
    ensures
        matches_at(ts, i, a),
        matches_at(ts, i + a.len(), b),
{
    let ab = a + b;
    assert forall|k: int| 0 <= k < a.len() implies ts[i + k] == #[trigger] a[k] by {
        assert(ab[k] == a[k]);
    }
    assert forall|k: int| 0 <= k < b.len() implies ts[i + a.len() + k] == #[trigger] b[k] by {
        assert(ab[a.len() + k] == b[k]);
    }
}

/// Where two runs of tokens stand one behind the other, they stand as one.
pub proof fn lemma_matches_join(ts: Seq<TokenView>, i: int, a: Seq<TokenView>, b: Seq<TokenView>)
    requires
        matches_at(ts, i, a),
        matches_at(ts, i + a.len(), b),
    ensures
        matches_at(ts, i, a + b),
{
    let ab = a + b;
    assert forall|k: int| 0 <= k < ab.len() implies ts[i + k] == #[trigger] ab[k] by {
        if k < a.len() {
            assert(ts[i + k] == a[k]);
        } else {
            assert(ts[i + a.len() + (k - a.len())] == b[k - a.len()]);
        }
    }
}

/// The first of several runs of tokens that stand in `ts` one after the
/// other, and the rest of them.
pub proof fn lemma_matches_first(
    ts: Seq<TokenView>,
    i: int,
    first: Seq<TokenView>,
    rest: Seq<TokenView>,
    close: Seq<TokenView>,
)
    requires
        matches_at(ts, i, first + rest + close),
    ensures
        matches_at(ts, i, first),
        matches_at(ts, i + first.len(), rest + close),
{
    lemma_matches_split(ts, i, first + rest, close);
    lemma_matches_split(ts, i, first, rest);
    lemma_matches_join(ts, i + first.len(), rest, close);
}

/// The token at a place of a run that stands in `ts`.
pub proof fn lemma_matches_tok(ts: Seq<TokenView>, i: int, pat: Seq<TokenView>, k: int)
    requires
        matches_at(ts, i, pat),
        0 <= k < pat.len(),
    ensures
        tok(ts, i + k) == pat[k],
{
    assert(ts[i + k] == pat[k]);
}

/// What a construct parses to when it parses without an error.
pub open spec fn parsed<T>(value: T, used: int) -> Parsed<T> {
    Parsed { value, used: used as nat, errors: Seq::empty() }
}

/// A list or a set is read back if its argument is.
proof fn lemma_parse_unary(
    ts: Seq<TokenView>,
    i: int,
    d: DataTypeView,
    word: Seq<char>,
    e: DataTypeStatementView,
    n: int,
)
    requires
        d is List || d is SetOf,
        n >= 1,
        tok(ts, i) == TokenView::Type(d, word),
        tok(ts, i + 1) == TokenView::Lt,
        generic_spec(ts, i + 2) == parsed(e, n - 1),
        tok(ts, i + 2 + n) == TokenView::Gt,
    ensures
        type_spec(ts, i) == parsed(
            if d is List {
                DataTypeStatementView::List(Box::new(e))
            } else {
                DataTypeStatementView::SetOf(Box::new(e))
            },
            n + 2,
        ),
        generic_spec(ts, i) == type_spec(ts, i),
{
    let body = arguments_spec(ts, tok(ts, i), i + 2);
    assert(body.used == n - 1);
    assert(body.errors == Seq::<ParseErrorView>::empty());
}

/// A map is read back if its two arguments are.
proof fn lemma_parse_binary(
    ts: Seq<TokenView>,
    i: int,
    word: Seq<char>,
    k: DataTypeStatementView,
    v: DataTypeStatementView,
    n: int,
    m: int,
)
    requires
        n >= 1,
        m >= 1,
        tok(ts, i) == TokenView::Type(DataTypeView::MapOf, word),
        tok(ts, i + 1) == TokenView::Lt,
        generic_spec(ts, i + 2) == parsed(k, n - 1),
        tok(ts, i + 2 + n) == TokenView::Comma,
        generic_spec(ts, i + 2 + n + 1) == parsed(v, m - 1),
        tok(ts, i + 2 + n + 1 + m) == TokenView::Gt,
    ensures
        type_spec(ts, i) == parsed(
            DataTypeStatementView::MapOf(Box::new(k), Box::new(v)),
            n + m + 3,
        ),
        generic_spec(ts, i) == type_spec(ts, i),
{
    let key = generic_spec(ts, i + 2);
    let value = generic_spec(ts, i + 2 + key.used + 2);
    assert(key.errors + value.errors =~= Seq::<ParseErrorView>::empty());
    let body = arguments_spec(ts, tok(ts, i), i + 2);
    assert(body.used == n - 1 + 2 + m - 1);
    assert(body.errors == Seq::<ParseErrorView>::empty());
}

/// A type expression that can be spelled is read back from its tokens, if
/// no `<` follows them.
pub proof fn lemma_parse_type(ts: Seq<TokenView>, i: int, t: DataTypeStatementView)
    requires
        is_type(t),
        matches_at(ts, i, type_tokens(t)),
        tok(ts, i + type_tokens(t).len()) != TokenView::Lt,
    ensures
        type_tokens(t).len() >= 1,
        type_spec(ts, i) == parsed(t, type_tokens(t).len() - 1),
        generic_spec(ts, i) == parsed(t, type_tokens(t).len() - 1),
    decreases t,
{
    let pat = type_tokens(t);
    match t {
        DataTypeStatementView::SetOf(e) => {
            let head = keyword(DataTypeView::SetOf, "set"@) + seq![TokenView::Lt];
            let inner = type_tokens(*e);
            lemma_matches_split(ts, i, head + inner, seq![TokenView::Gt]);
            lemma_matches_split(ts, i, head, inner);
            lemma_matches_tok(ts, i, head, 0);
            lemma_matches_tok(ts, i, head, 1);
            lemma_matches_tok(ts, i + 2 + inner.len(), seq![TokenView::Gt], 0);
            lemma_parse_type(ts, i + 2, *e);
            lemma_parse_unary(ts, i, DataTypeView::SetOf, "set"@, *e, inner.len() as int);
        },
        DataTypeStatementView::List(e) => {
            let head = keyword(DataTypeView::List, "list"@) + seq![TokenView::Lt];
            let inner = type_tokens(*e);
            lemma_matches_split(ts, i, head + inner, seq![TokenView::Gt]);
            lemma_matches_split(ts, i, head, inner);
            lemma_matches_tok(ts, i, head, 0);
            lemma_matches_tok(ts, i, head, 1);
            lemma_matches_tok(ts, i + 2 + inner.len(), seq![TokenView::Gt], 0);
            lemma_parse_type(ts, i + 2, *e);
            lemma_parse_unary(ts, i, DataTypeView::List, "list"@, *e, inner.len() as int);
        },
        DataTypeStatementView::MapOf(k, v) => {
            let head = keyword(DataTypeView::MapOf, "map"@) + seq![TokenView::Lt];
            let key = type_tokens(*k);
            let value = type_tokens(*v);
            let comma = seq![TokenView::Comma];
            lemma_matches_split(ts, i, head + key + comma + value, seq![TokenView::Gt]);
            lemma_matches_split(ts, i, head + key + comma, value);
            lemma_matches_split(ts, i, head + key, comma);
            lemma_matches_split(ts, i, head, key);
            lemma_matches_tok(ts, i, head, 0);
            lemma_matches_tok(ts, i, head, 1);
            lemma_matches_tok(ts, i + 2 + key.len(), comma, 0);
            lemma_matches_tok(ts, i + 2 + key.len() + 1 + value.len(), seq![TokenView::Gt], 0);
            lemma_parse_type(ts, i + 2, *k);
            lemma_parse_type(ts, i + 2 + key.len() + 1, *v);
            lemma_parse_binary(ts, i, "map"@, *k, *v, key.len() as int, value.len() as int);
        },
        _ => {
            lemma_matches_tok(ts, i, pat, 0);
        },
    }
}

/// The return type of a function is read back from its tokens and the `;`
/// behind them; the cursor starts on the `)` before them.
pub proof fn lemma_parse_return_type(ts: Seq<TokenView>, i: int, r: DataTypeStatementView)
    requires
        r is Nothing || is_type(r),
        matches_at(ts, i + 1, return_tokens(r) + seq![TokenView::Semicolon]),
    ensures
        return_type_spec(ts, i) == parsed(r, return_tokens(r).len() + 1int),
{
    let semicolon = seq![TokenView::Semicolon];
    if r is Nothing {
        lemma_matches_tok(ts, i + 1, return_tokens(r) + semicolon, 0);
    } else {
        let colon = seq![TokenView::Colon];
        let ty = type_tokens(r);
        lemma_matches_split(ts, i + 1, colon + ty, semicolon);
        lemma_matches_split(ts, i + 1, colon, ty);
        lemma_matches_tok(ts, i + 1, colon, 0);
        lemma_matches_tok(ts, i + 2 + ty.len(), semicolon, 0);
        lemma_parse_type(ts, i + 2, r);
    }
}

/// The parameters from index `k` on are read back from their tokens and
/// the `)` behind them.
pub proof fn lemma_parse_parameters_loop(
    ts: Seq<TokenView>,
    i: int,
    p: Seq<ParameterView>,
    k: int,
)
    requires
        0 <= k <= p.len(),
        forall|j: int| 0 <= j < p.len() ==> is_parameter(#[trigger] p[j]),
        matches_at(ts, i, parameters_tokens(p, k) + seq![TokenView::RParen]),
    ensures
        parameters_loop(ts, i) == parsed(
            p.subrange(k, p.len() as int),
            parameters_tokens(p, k).len() as int,
        ),
    decreases p.len() - k,
{
    let close = seq![TokenView::RParen];
    if k == p.len() {
        lemma_matches_tok(ts, i, parameters_tokens(p, k) + close, 0);
        assert(p.subrange(k, p.len() as int) =~= Seq::<ParameterView>::empty());
    } else {
        let head = seq![TokenView::Ident(p[k].ident.value), TokenView::Colon];
        let ty = type_tokens(p[k].data_type);
        let comma = if k + 1 < p.len() {
            seq![TokenView::Comma]
        } else {
            Seq::<TokenView>::empty()
        };
        let rest = parameters_tokens(p, k + 1);
        assert(is_parameter(p[k]));
        lemma_matches_split(ts, i, head + ty + comma + rest, close);
        lemma_matches_split(ts, i, head + ty + comma, rest);
        lemma_matches_split(ts, i, head + ty, comma);
        lemma_matches_split(ts, i, head, ty);
        lemma_matches_tok(ts, i, head, 0);
        lemma_matches_tok(ts, i, head, 1);
        let after = i + 2 + ty.len();
        assert(matches_at(ts, after + comma.len(), rest + close)) by {
            let tail = rest + close;
            assert forall|j: int| 0 <= j < tail.len() implies ts[after + comma.len() + j]
                == #[trigger] tail[j] by {
                if j < rest.len() {
                    assert(ts[after + comma.len() + j] == rest[j]);
                } else {
                    assert(ts[after + comma.len() + rest.len() + (j - rest.len())] == close[j
                        - rest.len()]);
                }
            }
        }
        if k + 1 < p.len() {
            lemma_matches_tok(ts, after, comma, 0);
        } else {
            lemma_matches_tok(ts, after, rest + close, 0);
        }
        lemma_parse_type(ts, i + 2, p[k].data_type);
        lemma_parse_parameters_loop(ts, after + comma.len(), p, k + 1);
        let first = parameter_spec(ts, i);
        assert(first.value == seq![p[k]]);
        assert(first.used == 2 + ty.len() - 1 + comma.len());
        assert(seq![p[k]] + p.subrange(k + 1, p.len() as int) =~= p.subrange(k, p.len() as int));
        assert(first.errors + Seq::<ParseErrorView>::empty() =~= Seq::<ParseErrorView>::empty());
    }
}

/// The parameters of a function are read back from their tokens and the
/// `)` behind them, if no second `)` follows.
pub proof fn lemma_parse_parameters(ts: Seq<TokenView>, i: int, p: Seq<ParameterView>)
    requires
        forall|j: int| 0 <= j < p.len() ==> is_parameter(#[trigger] p[j]),
        matches_at(ts, i, parameters_tokens(p, 0) + seq![TokenView::RParen]),
        tok(ts, i + parameters_tokens(p, 0).len() + 1) != TokenView::RParen,
    ensures
        parameters_spec(ts, i) == parsed(p, parameters_tokens(p, 0).len() as int),
{
    let close = seq![TokenView::RParen];
    lemma_parse_parameters_loop(ts, i, p, 0);
    assert(p.subrange(0, p.len() as int) =~= p);
    if p.len() > 0 {
        let head = seq![TokenView::Ident(p[0].ident.value), TokenView::Colon];
        let ty = type_tokens(p[0].data_type);
        let comma = if 1 < p.len() {
            seq![TokenView::Comma]
        } else {
            Seq::<TokenView>::empty()
        };
        let rest = parameters_tokens(p, 1);
        lemma_matches_split(ts, i, head + ty + comma + rest, close);
        lemma_matches_split(ts, i, head + ty + comma, rest);
        lemma_matches_split(ts, i, head + ty, comma);
        lemma_matches_split(ts, i, head, ty);
        lemma_matches_tok(ts, i, head, 1);
    }
}

/// A value that can be spelled is read back from its tokens.
pub proof fn lemma_parse_value(ts: Seq<TokenView>, i: int, v: StatementView)
    requires
        is_statement(v, Place::Value),
        matches_at(ts, i, statement_tokens(v)),
    ensures
        statement_tokens(v).len() >= 1,
        const_value_spec(ts, i) == parsed(v, statement_tokens(v).len() - 1),
    decreases v, 0nat,
{
    match v {
        StatementView::Block(b) => {
            let open = seq![TokenView::LBrace];
            let close = seq![TokenView::RBrace];
            let body = block_tokens(b.statements);
            lemma_matches_split(ts, i, open + body, close);
            lemma_matches_split(ts, i, open, body);
            lemma_matches_tok(ts, i, open, 0);
            assert(matches_at(ts, i + 1, body + close)) by {
                let tail = body + close;
                assert forall|j: int| 0 <= j < tail.len() implies ts[i + 1 + j]
                    == #[trigger] tail[j] by {
                    if j < body.len() {
                        assert(ts[i + 1 + j] == body[j]);
                    } else {
                        assert(ts[i + 1 + body.len() + (j - body.len())] == close[j - body.len()]);
                    }
                }
            }
            lemma_parse_entries(ts, i + 1, b.statements);
        },
        _ => {
            lemma_matches_tok(ts, i, statement_tokens(v), 0);
        },
    }
}

/// The definitions of a block are read back from their tokens and the `}`
/// behind them.
pub proof fn lemma_parse_entries(ts: Seq<TokenView>, k: int, defs: Seq<StatementView>)
    requires
        are_statements(defs, Place::Definitions),
        matches_at(ts, k, block_tokens(defs) + seq![TokenView::RBrace]),
    ensures
        const_entries_spec(ts, k) == parsed(Some(defs), block_tokens(defs).len() as int),
    decreases defs, 1nat,
{
    let close = seq![TokenView::RBrace];
    if defs.len() == 0 {
        lemma_matches_tok(ts, k, block_tokens(defs) + close, 0);
        assert(defs =~= Seq::<StatementView>::empty());
    } else {
        let first = defs.first();
        let rest = defs.drop_first();
        assert(is_statement(first, Place::Definitions));
        match first {
            StatementView::Definition(id, v) => {
                let head = seq![TokenView::Ident(id.value), TokenView::Equal];
                let value = statement_tokens(*v);
                let comma = seq![TokenView::Comma];
                let more = block_tokens(rest);
                assert(statement_tokens(first) == head + value + comma);
                lemma_matches_split(ts, k, head + value + comma + more, close);
                lemma_matches_split(ts, k, head + value + comma, more);
                lemma_matches_split(ts, k, head + value, comma);
                lemma_matches_split(ts, k, head, value);
                lemma_matches_tok(ts, k, head, 0);
                lemma_matches_tok(ts, k, head, 1);
                lemma_parse_value(ts, k + 2, *v);
                lemma_matches_tok(ts, k + 2 + value.len(), comma, 0);
                let next = k + 2 + value.len() + 1;
                assert(matches_at(ts, next, more + close)) by {
                    let tail = more + close;
                    assert forall|j: int| 0 <= j < tail.len() implies ts[next + j]
                        == #[trigger] tail[j] by {
                        if j < more.len() {
                            assert(ts[next + j] == more[j]);
                        } else {
                            assert(ts[next + more.len() + (j - more.len())] == close[j
                                - more.len()]);
                        }
                    }
                }
                lemma_parse_entries(ts, next, rest);
                let parsed_value = const_value_spec(ts, k + 2);
                let parsed_rest = const_entries_spec(ts, next);
                assert(seq![first] + rest =~= defs);
                assert(parsed_value.errors + parsed_rest.errors =~= Seq::<ParseErrorView>::empty());
                assert(tok(ts, k + 2 + parsed_value.used + 1) == TokenView::Comma);
                assert(k + 2 + parsed_value.used + 2 == next);
                assert(const_entries_spec(ts, k).used == block_tokens(defs).len());
                assert(const_entries_spec(ts, k).value == Some(defs));
            },
            _ => {},
        }
    }
}

/// A constant that can be spelled is read back from its tokens; the cursor
/// ends before the `;` behind its value.
pub proof fn lemma_parse_const_statement(ts: Seq<TokenView>, i: int, s: StatementView)
    requires
        s is Const,
        is_statement(s, Place::RecordBody) || is_statement(s, Place::InterfaceBody),
        matches_at(ts, i, statement_tokens(s)),
    ensures
        statement_tokens(s).len() >= 6,
        const_statement_spec(ts, i) == parsed(s, statement_tokens(s).len() - 2),
{
    match s {
        StatementView::Const(t, id, ty, v) => {
            let head = seq![TokenView::Const, TokenView::Ident(id.value), TokenView::Colon];
            let type_part = type_tokens(ty);
            let equal = seq![TokenView::Equal];
            let value = statement_tokens(*v);
            let semicolon = seq![TokenView::Semicolon];
            lemma_matches_split(ts, i, head + type_part + equal + value, semicolon);
            lemma_matches_split(ts, i, head + type_part + equal, value);
            lemma_matches_split(ts, i, head + type_part, equal);
            lemma_matches_split(ts, i, head, type_part);
            lemma_matches_tok(ts, i, head, 0);
            lemma_matches_tok(ts, i, head, 1);
            lemma_matches_tok(ts, i, head, 2);
            lemma_matches_tok(ts, i + 3 + type_part.len(), equal, 0);
            lemma_parse_type(ts, i + 3, ty);
            lemma_parse_value(ts, i + 3 + type_part.len() + 1, *v);
            let parsed_type = type_spec(ts, i + 3);
            let parsed_value = const_value_spec(ts, i + 3 + parsed_type.used + 2);
            assert(parsed_type.errors + parsed_value.errors =~= Seq::<ParseErrorView>::empty());
        },
        _ => {},
    }
}

/// One round of a body loop that passes over a token, with the rest of the body.
proof fn lemma_chain_nothing(rest: Parsed<Seq<StatementView>>)
    ensures
        chain(nothing::<StatementView>(), rest) == (Parsed {
            value: rest.value,
            used: rest.used + 1,
            errors: rest.errors,
        }),
{
    assert(Seq::<StatementView>::empty() + rest.value =~= rest.value);
    assert(Seq::<ParseErrorView>::empty() + rest.errors =~= rest.errors);
}

/// One round of a body loop that reads a statement without an error, with
/// the rest of the body, which is read without an error too.
proof fn lemma_chain_one(first: StatementView, used: nat, rest: Seq<StatementView>, n: int)
    requires
        n >= 0,
    ensures
        chain(
            Parsed { value: seq![first], used, errors: Seq::<ParseErrorView>::empty() },
            parsed(rest, n),
        ) == parsed(seq![first] + rest, used + 1 + n),
{
    assert(Seq::<ParseErrorView>::empty() + Seq::<ParseErrorView>::empty()
        =~= Seq::<ParseErrorView>::empty());
}

/// A sequence is its first element and the rest.
proof fn lemma_first_and_rest(v: Seq<StatementView>)
    requires
        v.len() > 0,
    ensures
        seq![v.first()] + v.drop_first() == v,
{
    assert(seq![v.first()] + v.drop_first() =~= v);
}

/// The body of an enum is read back from its tokens and the `}` behind them.
pub proof fn lemma_parse_enum_body(ts: Seq<TokenView>, i: int, body: Seq<StatementView>)
    requires
        are_statements(body, Place::EnumBody),
        matches_at(ts, i, block_tokens(body) + seq![TokenView::RBrace]),
    ensures
        enum_body_spec(ts, i) == parsed(body, block_tokens(body).len() as int),
    decreases body.len(),
{
    let close = seq![TokenView::RBrace];
    if body.len() == 0 {
        lemma_matches_tok(ts, i, block_tokens(body) + close, 0);
        assert(body =~= Seq::<StatementView>::empty());
    } else {
        let first = body.first();
        let rest = body.drop_first();
        let mine = statement_tokens(first);
        assert(is_statement(first, Place::EnumBody));
        lemma_matches_first(ts, i, mine, block_tokens(rest), close);
        lemma_first_and_rest(body);
        lemma_parse_enum_body(ts, i + mine.len(), rest);
        let n = block_tokens(rest).len() as int;
        match first {
            StatementView::EnumMember(t, id) => {
                lemma_matches_tok(ts, i, mine, 0);
                lemma_matches_tok(ts, i, mine, 1);
                lemma_chain_nothing(enum_body_spec(ts, i + 2));
                assert(enum_body_spec(ts, i + 1) == parsed(rest, n + 1));
                assert(enum_member_spec(ts, i).value == seq![first]);
                lemma_chain_one(first, 0, rest, n + 1);
            },
            StatementView::Comment(t, text) => {
                lemma_matches_tok(ts, i, mine, 0);
                assert(enum_member_spec(ts, i).value == seq![first]);
                lemma_chain_one(first, 0, rest, n);
            },
            _ => {},
        }
    }
}

/// A field at the start of the body of a record is read back, if the rest
/// of the body is.
proof fn lemma_record_member_step(
    ts: Seq<TokenView>,
    i: int,
    first: StatementView,
    rest: Seq<StatementView>,
    n: int,
)
    requires
        n >= 0,
        first is RecordMember,
        is_statement(first, Place::RecordBody),
        matches_at(ts, i, statement_tokens(first)),
        record_body_spec(ts, i + statement_tokens(first).len()) == parsed(rest, n),
    ensures
        record_body_spec(ts, i) == parsed(seq![first] + rest, statement_tokens(first).len() + n),
{
    let mine = statement_tokens(first);
    let end = i + mine.len();
    match first {
        StatementView::RecordMember(t, id, ty) => {
            let head = seq![TokenView::Ident(id.value), TokenView::Colon];
            let type_part = type_tokens(ty);
            let semicolon = seq![TokenView::Semicolon];
            lemma_matches_split(ts, i, head + type_part, semicolon);
            lemma_matches_split(ts, i, head, type_part);
            lemma_matches_tok(ts, i, head, 0);
            lemma_matches_tok(ts, i, head, 1);
            lemma_matches_tok(ts, i + 2 + type_part.len(), semicolon, 0);
            lemma_parse_type(ts, i + 2, ty);
            lemma_chain_nothing(record_body_spec(ts, end));
            assert(record_body_spec(ts, end - 1) == parsed(rest, n + 1));
            assert(record_member_spec(ts, i) == (Parsed {
                value: seq![first],
                used: (mine.len() - 2) as nat,
                errors: Seq::<ParseErrorView>::empty(),
            }));
            lemma_chain_one(first, (mine.len() - 2) as nat, rest, n + 1);
        },
        _ => {},
    }
}

/// A comment at the start of the body of a record is read back, if the
/// rest of the body is.
proof fn lemma_record_comment_step(
    ts: Seq<TokenView>,
    i: int,
    first: StatementView,
    rest: Seq<StatementView>,
    n: int,
)
    requires
        n >= 0,
        first is Comment,
        is_statement(first, Place::RecordBody),
        matches_at(ts, i, statement_tokens(first)),
        record_body_spec(ts, i + statement_tokens(first).len()) == parsed(rest, n),
    ensures
        record_body_spec(ts, i) == parsed(seq![first] + rest, statement_tokens(first).len() + n),
{
    lemma_matches_tok(ts, i, statement_tokens(first), 0);
    assert(record_member_spec(ts, i) == (Parsed {
        value: seq![first],
        used: 0,
        errors: Seq::<ParseErrorView>::empty(),
    }));
    lemma_chain_one(first, 0, rest, n);
}

/// A constant at the start of the body of a record is read back, if the
/// rest of the body is.
proof fn lemma_record_const_step(
    ts: Seq<TokenView>,
    i: int,
    first: StatementView,
    rest: Seq<StatementView>,
    n: int,
)
    requires
        n >= 0,
        first is Const,
        is_statement(first, Place::RecordBody),
        matches_at(ts, i, statement_tokens(first)),
        record_body_spec(ts, i + statement_tokens(first).len()) == parsed(rest, n),
    ensures
        record_body_spec(ts, i) == parsed(seq![first] + rest, statement_tokens(first).len() + n),
{
    let mine = statement_tokens(first);
    let end = i + mine.len();
    lemma_parse_const_statement(ts, i, first);
    lemma_matches_tok(ts, i, mine, 0);
    lemma_matches_tok(ts, i, mine, mine.len() - 1);
    lemma_chain_nothing(record_body_spec(ts, end));
    assert(tok(ts, end - 1) == TokenView::Semicolon);
    assert(record_body_spec(ts, end - 1) == parsed(rest, n + 1));
    assert(record_member_spec(ts, i) == (Parsed {
        value: seq![first],
        used: (mine.len() - 2) as nat,
        errors: Seq::<ParseErrorView>::empty(),
    }));
    lemma_chain_one(first, (mine.len() - 2) as nat, rest, n + 1);
}

/// The body of a record is read back from its tokens and the `}` behind them.
pub proof fn lemma_parse_record_body(ts: Seq<TokenView>, i: int, body: Seq<StatementView>)
    requires
        are_statements(body, Place::RecordBody),
        matches_at(ts, i, block_tokens(body) + seq![TokenView::RBrace]),
    ensures
        record_body_spec(ts, i) == parsed(body, block_tokens(body).len() as int),
    decreases body.len(),
{
    let close = seq![TokenView::RBrace];
    if body.len() == 0 {
        lemma_matches_tok(ts, i, block_tokens(body) + close, 0);
        assert(body =~= Seq::<StatementView>::empty());
    } else {
        let first = body.first();
        let rest = body.drop_first();
        let mine = statement_tokens(first);
        assert(is_statement(first, Place::RecordBody));
        lemma_matches_first(ts, i, mine, block_tokens(rest), close);
        lemma_first_and_rest(body);
        lemma_parse_record_body(ts, i + mine.len(), rest);
        let n = block_tokens(rest).len() as int;
        if first is RecordMember {
            lemma_record_member_step(ts, i, first, rest, n);
        } else if first is Comment {
            lemma_record_comment_step(ts, i, first, rest, n);
        } else if first is Const {
            lemma_record_const_step(ts, i, first, rest, n);
        }
    }
}

/// The tokens of a function behind its modifier.
pub open spec fn function_tokens(
    name: Seq<char>,
    p: Seq<ParameterView>,
    r: DataTypeStatementView,
) -> Seq<TokenView> {
    seq![TokenView::Ident(name), TokenView::LParen] + parameters_tokens(p, 0) + seq![
        TokenView::RParen,
    ] + return_tokens(r) + seq![TokenView::Semicolon]
}

/// A function that can be spelled is read back from its tokens behind its
/// modifier, with the modifier `m`; the cursor ends on its `;`.
pub proof fn lemma_parse_function(
    ts: Seq<TokenView>,
    f: int,
    m: FunctionModifier,
    name: Seq<char>,
    p: Seq<ParameterView>,
    r: DataTypeStatementView,
)
    requires
        forall|k: int| 0 <= k < p.len() ==> is_parameter(#[trigger] p[k]),
        r is Nothing || is_type(r),
        matches_at(ts, f, function_tokens(name, p, r)),
    ensures
        function_spec(ts, f, m) == (Parsed {
            value: seq![
                StatementView::Function(
                    TokenView::Ident(name),
                    m,
                    IdentifierView { token: TokenView::Ident(name), value: name },
                    p,
                    r,
                ),
            ],
            used: (function_tokens(name, p, r).len() - 1) as nat,
            errors: Seq::<ParseErrorView>::empty(),
        }),
        modifier_after(ts, f, m) == FunctionModifier::Nothing,
{
    let head = seq![TokenView::Ident(name), TokenView::LParen];
    let params = parameters_tokens(p, 0);
    let close = seq![TokenView::RParen];
    let ret = return_tokens(r);
    let semicolon = seq![TokenView::Semicolon];
    lemma_matches_split(ts, f, head + params + close + ret, semicolon);
    lemma_matches_split(ts, f, head + params + close, ret);
    lemma_matches_split(ts, f, head + params, close);
    lemma_matches_split(ts, f, head, params);
    lemma_matches_tok(ts, f, head, 0);
    lemma_matches_tok(ts, f, head, 1);
    lemma_matches_join(ts, f + 2, params, close);
    let at_close = f + 2 + params.len();
    lemma_matches_join(ts, at_close + 1, ret, semicolon);
    lemma_matches_tok(ts, at_close + 1, ret + semicolon, 0);
    assert(tok(ts, at_close + 1) != TokenView::RParen);
    lemma_parse_parameters(ts, f + 2, p);
    lemma_parse_return_type(ts, at_close, r);
    let parsed_params = parameters_spec(ts, f + 2);
    let parsed_return = return_type_spec(ts, f + 2 + parsed_params.used);
    assert(parsed_params.errors + parsed_return.errors =~= Seq::<ParseErrorView>::empty());
}

/// A function at the start of the body of an interface is read back, if
/// the rest of the body is.
#[verifier::rlimit(40)]
proof fn lemma_interface_function_step(
    ts: Seq<TokenView>,
    i: int,
    first: StatementView,
    rest: Seq<StatementView>,
    n: int,
)
    requires
        n >= 0,
        first is Function,
        is_statement(first, Place::InterfaceBody),
        matches_at(ts, i, statement_tokens(first)),
        interface_body_spec(ts, i + statement_tokens(first).len(), FunctionModifier::Nothing)
            == parsed(rest, n),
    ensures
        interface_body_spec(ts, i, FunctionModifier::Nothing) == parsed(
            seq![first] + rest,
            statement_tokens(first).len() + n,
        ),
{
    let mine = statement_tokens(first);
    let none = FunctionModifier::Nothing;
    match first {
        StatementView::Function(t, m, id, p, r) => {
            let function = function_tokens(id.value, p, r);
            if m == FunctionModifier::Nothing {
                assert(mine =~= function);
                lemma_parse_function(ts, i, m, id.value, p, r);
                lemma_matches_tok(ts, i, function, 0);
                assert(interface_member_spec(ts, i, none) == function_spec(ts, i, none));
                lemma_chain_one(first, (mine.len() - 1) as nat, rest, n);
            } else {
                let word = seq![TokenView::Static];
                assert(mine =~= word + function);
                lemma_matches_split(ts, i, word, function);
                lemma_matches_tok(ts, i, word, 0);
                lemma_parse_function(ts, i + 1, m, id.value, p, r);
                lemma_matches_tok(ts, i + 1, function, 0);
                assert(interface_member_spec(ts, i + 1, m) == function_spec(ts, i + 1, m));
                lemma_chain_one(first, (function.len() - 1) as nat, rest, n);
                assert(interface_body_spec(ts, i + 1, m) == parsed(
                    seq![first] + rest,
                    function.len() + n,
                ));
                lemma_chain_nothing(interface_body_spec(ts, i + 1, m));
                assert(modifier_after(ts, i, none) == m);
            }
        },
        _ => {},
    }
}

/// A comment at the start of the body of an interface is read back, if the
/// rest of the body is.
proof fn lemma_interface_comment_step(
    ts: Seq<TokenView>,
    i: int,
    first: StatementView,
    rest: Seq<StatementView>,
    n: int,
)
    requires
        n >= 0,
        first is Comment,
        is_statement(first, Place::InterfaceBody),
        matches_at(ts, i, statement_tokens(first)),
        interface_body_spec(ts, i + statement_tokens(first).len(), FunctionModifier::Nothing)
            == parsed(rest, n),
    ensures
        interface_body_spec(ts, i, FunctionModifier::Nothing) == parsed(
            seq![first] + rest,
            statement_tokens(first).len() + n,
        ),
{
    let none = FunctionModifier::Nothing;
    lemma_matches_tok(ts, i, statement_tokens(first), 0);
    assert(interface_member_spec(ts, i, none) == (Parsed {
        value: seq![first],
        used: 0,
        errors: Seq::<ParseErrorView>::empty(),
    }));
    lemma_chain_one(first, 0, rest, n);
}

/// A constant at the start of the body of an interface is read back, if
/// the rest of the body is.
proof fn lemma_interface_const_step(
    ts: Seq<TokenView>,
    i: int,
    first: StatementView,
    rest: Seq<StatementView>,
    n: int,
)
    requires
        n >= 0,
        first is Const,
        is_statement(first, Place::InterfaceBody),
        matches_at(ts, i, statement_tokens(first)),
        interface_body_spec(ts, i + statement_tokens(first).len(), FunctionModifier::Nothing)
            == parsed(rest, n),
    ensures
        interface_body_spec(ts, i, FunctionModifier::Nothing) == parsed(
            seq![first] + rest,
            statement_tokens(first).len() + n,
        ),
{
    let mine = statement_tokens(first);
    let end = i + mine.len();
    let none = FunctionModifier::Nothing;
    lemma_parse_const_statement(ts, i, first);
    lemma_matches_tok(ts, i, mine, 0);
    lemma_matches_tok(ts, i, mine, mine.len() - 1);
    lemma_chain_nothing(interface_body_spec(ts, end, none));
    assert(tok(ts, end - 1) == TokenView::Semicolon);
    assert(interface_body_spec(ts, end - 1, none) == parsed(rest, n + 1));
    assert(interface_member_spec(ts, i, none) == (Parsed {
        value: seq![first],
        used: (mine.len() - 2) as nat,
        errors: Seq::<ParseErrorView>::empty(),
    }));
    lemma_chain_one(first, (mine.len() - 2) as nat, rest, n + 1);
}

/// The body of an interface is read back from its tokens and the `}`
/// behind them.
pub proof fn lemma_parse_interface_body(ts: Seq<TokenView>, i: int, body: Seq<StatementView>)
    requires
        are_statements(body, Place::InterfaceBody),
        matches_at(ts, i, block_tokens(body) + seq![TokenView::RBrace]),
    ensures
        interface_body_spec(ts, i, FunctionModifier::Nothing) == parsed(
            body,
            block_tokens(body).len() as int,
        ),
    decreases body.len(),
{
    let close = seq![TokenView::RBrace];
    if body.len() == 0 {
        lemma_matches_tok(ts, i, block_tokens(body) + close, 0);
        assert(body =~= Seq::<StatementView>::empty());
    } else {
        let first = body.first();
        let rest = body.drop_first();
        let mine = statement_tokens(first);
        assert(is_statement(first, Place::InterfaceBody));
        lemma_matches_first(ts, i, mine, block_tokens(rest), close);
        lemma_first_and_rest(body);
        lemma_parse_interface_body(ts, i + mine.len(), rest);
        let n = block_tokens(rest).len() as int;
        if first is Function {
            lemma_interface_function_step(ts, i, first, rest, n);
        } else if first is Comment {
            lemma_interface_comment_step(ts, i, first, rest, n);
        } else if first is Const {
            lemma_interface_const_step(ts, i, first, rest, n);
        }
    }
}

/// The derives from index `k` on are read back from their tokens and the
/// `)` behind them.
pub proof fn lemma_parse_derives_loop(ts: Seq<TokenView>, i: int, d: Seq<DeriveType>, k: int)
    requires
        0 <= k <= d.len(),
        are_derives(d),
        matches_at(ts, i, derives_tokens(d, k) + seq![TokenView::RParen]),
    ensures
        derives_loop(ts, i) == parsed(
            d.subrange(k, d.len() as int),
            derives_tokens(d, k).len() as int,
        ),
    decreases d.len() - k,
{
    let close = seq![TokenView::RParen];
    if k == d.len() {
        lemma_matches_tok(ts, i, derives_tokens(d, k) + close, 0);
        assert(d.subrange(k, d.len() as int) =~= Seq::<DeriveType>::empty());
    } else {
        let word = seq![derive_token(d[k])];
        let comma = if k + 1 < d.len() {
            seq![TokenView::Comma]
        } else {
            Seq::<TokenView>::empty()
        };
        let rest = derives_tokens(d, k + 1);
        assert(d[k] != DeriveType::Nothing);
        lemma_matches_first(ts, i, word + comma, rest, close);
        lemma_matches_split(ts, i, word, comma);
        lemma_matches_tok(ts, i, word, 0);
        let next = i + 1 + comma.len();
        if k + 1 < d.len() {
            lemma_matches_tok(ts, i + 1, comma, 0);
        } else {
            lemma_matches_tok(ts, next, rest + close, 0);
        }
        lemma_parse_derives_loop(ts, next, d, k + 1);
        let first = derive_spec(ts, i);
        assert(first.value == seq![d[k]]);
        assert(first.used == comma.len());
        assert(seq![d[k]] + d.subrange(k + 1, d.len() as int) =~= d.subrange(k, d.len() as int));
        assert(first.errors + Seq::<ParseErrorView>::empty() =~= Seq::<ParseErrorView>::empty());
    }
}

/// A `deriving` clause is read back from its tokens; the cursor starts on
/// the `}` before them. Where nothing is derived, the word `deriving` must
/// not follow.
pub proof fn lemma_parse_derives(ts: Seq<TokenView>, i: int, d: Seq<DeriveType>)
    requires
        are_derives(d),
        matches_at(ts, i + 1, deriving_tokens(d)),
        tok(ts, i + 1 + deriving_tokens(d).len()) != TokenView::Dervive,
    ensures
        derives_spec(ts, i) == parsed(d, deriving_tokens(d).len() as int),
{
    if d.len() == 0 {
        assert(d =~= Seq::<DeriveType>::empty());
    } else {
        let head = seq![TokenView::Dervive, TokenView::LParen];
        let words = derives_tokens(d, 0);
        let close = seq![TokenView::RParen];
        lemma_matches_first(ts, i + 1, head, words, close);
        lemma_matches_tok(ts, i + 1, head, 0);
        lemma_matches_tok(ts, i + 1, head, 1);
        lemma_parse_derives_loop(ts, i + 3, d, 0);
        assert(d.subrange(0, d.len() as int) =~= d);
    }
}

/// The targets from index `k` on are read back from their tokens and the
/// `{` behind them.
pub proof fn lemma_parse_targets(ts: Seq<TokenView>, i: int, t: Seq<InterfaceType>, k: int)
    requires
        0 <= k <= t.len(),
        matches_at(ts, i, targets_tokens(t, k) + seq![TokenView::LBrace]),
    ensures
        targets_spec(ts, i) == parsed(
            t.subrange(k, t.len() as int),
            targets_tokens(t, k).len() as int,
        ),
    decreases t.len() - k,
{
    let close = seq![TokenView::LBrace];
    if k == t.len() {
        lemma_matches_tok(ts, i, targets_tokens(t, k) + close, 0);
        assert(t.subrange(k, t.len() as int) =~= Seq::<InterfaceType>::empty());
    } else {
        let word = seq![target_token(t[k])];
        let rest = targets_tokens(t, k + 1);
        lemma_matches_first(ts, i, word, rest, close);
        lemma_matches_tok(ts, i, word, 0);
        lemma_parse_targets(ts, i + 1, t, k + 1);
        let first = target_spec(tok(ts, i));
        assert(first.value == seq![t[k]]);
        assert(seq![t[k]] + t.subrange(k + 1, t.len() as int) =~= t.subrange(k, t.len() as int));
        assert(first.errors + Seq::<ParseErrorView>::empty() =~= Seq::<ParseErrorView>::empty());
    }
}

/// An enum that can be spelled is read back from its tokens.
proof fn lemma_parse_enum(ts: Seq<TokenView>, i: int, s: StatementView)
    requires
        s is Enum,
        is_statement(s, Place::Top),
        matches_at(ts, i, statement_tokens(s)),
    ensures
        statement_spec(ts, i) == parsed(Some(s), statement_tokens(s).len() - 1),
{
    match s {
        StatementView::Enum(t, id, b) => {
            let head = seq![
                TokenView::Ident(id.value),
                TokenView::Equal,
                TokenView::Enum,
                TokenView::LBrace,
            ];
            let body = block_tokens(b.statements);
            let close = seq![TokenView::RBrace];
            lemma_matches_first(ts, i, head, body, close);
            lemma_matches_tok(ts, i, head, 0);
            lemma_matches_tok(ts, i, head, 1);
            lemma_matches_tok(ts, i, head, 2);
            lemma_matches_tok(ts, i, head, 3);
            lemma_parse_enum_body(ts, i + 4, b.statements);
            lemma_chain_nothing(enum_body_spec(ts, i + 4));
            assert(enum_body_spec(ts, i + 3) == parsed(b.statements, body.len() + 1int));
            assert(enum_statement_spec(ts, tok(ts, i), i + 3) == parsed(s, body.len() + 1int));
            assert(declaration_spec(ts, i) == parsed(Some(s), 3int + body.len() + 1));
        },
        _ => {},
    }
}

/// A record that can be spelled is read back from its tokens, if the word
/// `deriving` does not follow them.
proof fn lemma_parse_record(ts: Seq<TokenView>, i: int, s: StatementView)
    requires
        s is Record,
        is_statement(s, Place::Top),
        matches_at(ts, i, statement_tokens(s)),
        tok(ts, i + statement_tokens(s).len()) != TokenView::Dervive,
    ensures
        statement_spec(ts, i) == parsed(Some(s), statement_tokens(s).len() - 1),
{
    match s {
        StatementView::Record(t, id, b, d) => {
            let head = seq![
                TokenView::Ident(id.value),
                TokenView::Equal,
                TokenView::Record,
                TokenView::LBrace,
            ];
            let body = block_tokens(b.statements);
            let close = seq![TokenView::RBrace];
            let derives = deriving_tokens(d);
            lemma_matches_split(ts, i, head + body + close, derives);
            lemma_matches_first(ts, i, head, body, close);
            lemma_matches_tok(ts, i, head, 0);
            lemma_matches_tok(ts, i, head, 1);
            lemma_matches_tok(ts, i, head, 2);
            lemma_matches_tok(ts, i, head, 3);
            lemma_parse_record_body(ts, i + 4, b.statements);
            lemma_chain_nothing(record_body_spec(ts, i + 4));
            assert(record_body_spec(ts, i + 3) == parsed(b.statements, body.len() + 1int));
            lemma_parse_derives(ts, i + 4 + body.len(), d);
            let parsed_body = record_body_spec(ts, i + 3);
            let parsed_derives = derives_spec(ts, i + 3 + parsed_body.used);
            assert(parsed_body.errors + parsed_derives.errors =~= Seq::<ParseErrorView>::empty());
            assert(record_statement_spec(ts, tok(ts, i), i + 3) == parsed(
                s,
                body.len() + 1int + derives.len(),
            ));
            assert(declaration_spec(ts, i)
                == parsed(Some(s), 3int + body.len() + 1 + derives.len()));
        },
        _ => {},
    }
}

/// An interface that can be spelled is read back from its tokens, if the
/// word `deriving` does not follow them.
proof fn lemma_parse_interface(ts: Seq<TokenView>, i: int, s: StatementView)
    requires
        s is Interface,
        is_statement(s, Place::Top),
        matches_at(ts, i, statement_tokens(s)),
        tok(ts, i + statement_tokens(s).len()) != TokenView::Dervive,
    ensures
        statement_spec(ts, i) == parsed(Some(s), statement_tokens(s).len() - 1),
{
    match s {
        StatementView::Interface(t, id, targets, b, d) => {
            let head = seq![TokenView::Ident(id.value), TokenView::Equal, TokenView::Interface];
            let tags = targets_tokens(targets, 0);
            let open = seq![TokenView::LBrace];
            let body = block_tokens(b.statements);
            let close = seq![TokenView::RBrace];
            let derives = deriving_tokens(d);
            let none = FunctionModifier::Nothing;
            lemma_matches_split(ts, i, head + tags + open + body + close, derives);
            lemma_matches_split(ts, i, head + tags + open + body, close);
            lemma_matches_split(ts, i, head + tags + open, body);
            lemma_matches_first(ts, i, head, tags, open);
            lemma_matches_split(ts, i + 3, tags, open);
            lemma_matches_tok(ts, i, head, 0);
            lemma_matches_tok(ts, i, head, 1);
            lemma_matches_tok(ts, i, head, 2);
            lemma_parse_targets(ts, i + 3, targets, 0);
            assert(targets.subrange(0, targets.len() as int) =~= targets);
            let at_open = i + 3 + tags.len();
            lemma_matches_tok(ts, at_open, open, 0);
            lemma_matches_join(ts, at_open + 1, body, close);
            lemma_parse_interface_body(ts, at_open + 1, b.statements);
            lemma_chain_nothing(interface_body_spec(ts, at_open + 1, none));
            assert(interface_body_spec(ts, at_open, none)
                == parsed(b.statements, body.len() + 1int));
            lemma_parse_derives(ts, at_open + 1 + body.len(), d);
            let parsed_targets = targets_spec(ts, i + 3);
            let parsed_body = interface_body_spec(ts, i + 3 + parsed_targets.used, none);
            let parsed_derives = derives_spec(ts, i + 3 + parsed_targets.used + parsed_body.used);
            assert(parsed_targets.errors + parsed_body.errors + parsed_derives.errors
                =~= Seq::<ParseErrorView>::empty());
            assert(interface_statement_spec(ts, tok(ts, i), i + 3) == parsed(
                s,
                tags.len() + body.len() + 1int + derives.len(),
            ));
            assert(declaration_spec(ts, i) == parsed(
                Some(s),
                3int + tags.len() + body.len() + 1 + derives.len(),
            ));
        },
        _ => {},
    }
}

/// A top-level statement that can be spelled is read back from its tokens,
/// if the word `deriving` does not follow them.
pub proof fn lemma_parse_statement(ts: Seq<TokenView>, i: int, s: StatementView)
    requires
        is_statement(s, Place::Top),
        matches_at(ts, i, statement_tokens(s)),
        tok(ts, i + statement_tokens(s).len()) != TokenView::Dervive,
    ensures
        statement_tokens(s).len() >= 1,
        tok(ts, i) == statement_tokens(s)[0],
        statement_tokens(s)[0] is Ident || statement_tokens(s)[0] is AtSign || statement_tokens(
            s,
        )[0] is Comment,
        statement_spec(ts, i) == parsed(Some(s), statement_tokens(s).len() - 1),
{
    let mine = statement_tokens(s);
    match s {
        StatementView::Import(t, path) => {
            lemma_matches_tok(ts, i, mine, 0);
            lemma_matches_tok(ts, i, mine, 1);
            lemma_matches_tok(ts, i, mine, 2);
            assert(import_spec(ts, i) == parsed(Some(s), 2));
        },
        StatementView::Comment(t, text) => {
            lemma_matches_tok(ts, i, mine, 0);
        },
        StatementView::Enum(t, id, b) => {
            lemma_matches_split(
                ts,
                i,
                seq![
                    TokenView::Ident(id.value),
                    TokenView::Equal,
                    TokenView::Enum,
                    TokenView::LBrace,
                ] + block_tokens(b.statements),
                seq![TokenView::RBrace],
            );
            lemma_matches_tok(ts, i, mine, 0);
            lemma_parse_enum(ts, i, s);
        },
        StatementView::Record(t, id, b, d) => {
            lemma_matches_tok(ts, i, mine, 0);
            lemma_parse_record(ts, i, s);
        },
        StatementView::Interface(t, id, targets, b, d) => {
            lemma_matches_tok(ts, i, mine, 0);
            lemma_parse_interface(ts, i, s);
        },
        _ => {},
    }
}

/// The statements of a program are read back from their tokens and the end
/// of the text behind them.
pub proof fn lemma_parse_program_from(ts: Seq<TokenView>, i: int, p: Seq<StatementView>)
    requires
        are_statements(p, Place::Top),
        matches_at(ts, i, block_tokens(p) + seq![TokenView::Eof]),
    ensures
        program_spec(ts, i) == parsed(p, block_tokens(p).len() as int),
    decreases p.len(),
{
    let close = seq![TokenView::Eof];
    if p.len() == 0 {
        lemma_matches_tok(ts, i, block_tokens(p) + close, 0);
        assert(p =~= Seq::<StatementView>::empty());
    } else {
        let first = p.first();
        let rest = p.drop_first();
        let mine = statement_tokens(first);
        assert(is_statement(first, Place::Top));
        lemma_matches_first(ts, i, mine, block_tokens(rest), close);
        lemma_first_and_rest(p);
        let end = i + mine.len();
        lemma_parse_program_from(ts, end, rest);
        assert(tok(ts, end) != TokenView::Dervive) by {
            lemma_matches_tok(ts, end, block_tokens(rest) + close, 0);
            if rest.len() > 0 {
                assert(are_statements(rest, Place::Top));
                assert(is_statement(rest.first(), Place::Top));
                lemma_matches_first(
                    ts,
                    end,
                    statement_tokens(rest.first()),
                    block_tokens(rest.drop_first()),
                    close,
                );
                lemma_first_statement_token(rest.first());
                lemma_matches_tok(ts, end, statement_tokens(rest.first()), 0);
            }
        }
        lemma_parse_statement(ts, i, first);
        assert(top_level_spec(ts, i) == (Parsed {
            value: seq![first],
            used: (mine.len() - 1) as nat,
            errors: Seq::<ParseErrorView>::empty(),
        }));
        lemma_chain_one(first, (mine.len() - 1) as nat, rest, block_tokens(rest).len() as int);
    }
}

/// The first token of a top-level statement is a name, `@` or a comment.
pub proof fn lemma_first_statement_token(s: StatementView)
    requires
        is_statement(s, Place::Top),
    ensures
        statement_tokens(s).len() >= 1,
        statement_tokens(s)[0] is Ident || statement_tokens(s)[0] is AtSign || statement_tokens(
            s,
        )[0] is Comment,
{
}

/// Parsing the tokens that spell a program gives the program back, without
/// an error.
pub proof fn lemma_parse_tokens(p: Seq<StatementView>)
    requires
        is_program(p),
    ensures
        program_spec(program_tokens(p), 0) == parsed(p, block_tokens(p).len() as int),
{
    let ts = program_tokens(p);
    assert(matches_at(ts, 0, block_tokens(p) + seq![TokenView::Eof]));
    lemma_parse_program_from(ts, 0, p);
}

} // verus!
