//! The recursive-descent parser: from the tokens of a lexer to a program.

use crate::parser::ast::{
    BlockStatement, DataTypeStatement, DeriveType, FunctionModifier, Identifier, InterfaceType,
    Parameter, Statement, StatementKind,
};
use crate::parser::ast::{
    lemma_statements_view_push, optional_view, parameters_view, statements_view, BlockView,
    ParameterView, StatementView,
};
use crate::parser::grammar::{
    arguments_spec, comment_spec, const_entries_spec, const_statement_spec, const_value_spec,
    declaration_spec, derive_spec, derives_loop, derives_spec, enum_body_spec, enum_member_spec,
    enum_statement_spec, expect_spec, function_spec, generic_spec, ident_string, import_spec,
    interface_body_spec, interface_member_spec, interface_statement_spec, left, mismatch,
    modifier_after, parameter_spec, parameters_loop, parameters_spec, program_spec,
    record_body_spec, record_member_spec, record_statement_spec, return_type_spec, simple_type,
    statement_spec, target_spec, targets_spec, tok, top_level_spec, type_spec, ParseErrorView,
    Parsed,
};
use crate::parser::lexer::{
    is_stream, lemma_tokens_from_is_stream, lemma_tokens_from_step, lex_spec, Lexer,
};
use crate::parser::program::Program;
use crate::parser::token::{DataType, Token, TokenView};
use std::sync::Arc;
use vstd::prelude::*;

verus! {

/// A token that was found where another was required.
#[derive(PartialEq, Eq, Debug)]
pub struct ParseError {
    /// The token that was required; a token with content stands for its kind.
    pub expected: Token,
    /// The token that was found.
    pub actual: Token,
    /// The index of the found token in the stream of tokens.
    pub position: usize,
}

impl View for ParseError {
    type V = ParseErrorView;

    open spec fn view(&self) -> ParseErrorView {
        ParseErrorView {
            expected: self.expected@,
            actual: self.actual@,
            position: self.position as int,
        }
    }
}

impl Clone for ParseError {
    fn clone(&self) -> (r: ParseError)
        ensures
            r == *self,
    {
        ParseError {
            expected: self.expected.clone(),
            actual: self.actual.clone(),
            position: self.position,
        }
    }
}

/// The models of the errors in `v`.
pub open spec fn errors_view(v: Seq<ParseError>) -> Seq<ParseErrorView> {
    Seq::new(v.len(), |i: int| v[i]@)
}

/// The stream from index `k` on; behind its end only `Eof` is left.
pub open spec fn rest(ts: Seq<TokenView>, k: int) -> Seq<TokenView> {
    if 0 <= k < ts.len() {
        ts.skip(k)
    } else {
        seq![TokenView::Eof]
    }
}

/// A parser over the tokens of a lexer, with the token under the cursor and
/// the one behind it at hand.
pub struct Parser {
    lexer: Lexer,
    cur_token: Token,
    peek_token: Token,
    errors: Vec<ParseError>,
    position: usize,
    tokens: Ghost<Seq<TokenView>>,
    index: Ghost<int>,
}

impl Parser {
    /// The stream of tokens that this parser reads, from its creation on.
    pub closed spec fn tokens(&self) -> Seq<TokenView> {
        self.tokens@
    }

    /// The index in `tokens()` of the token under the cursor. It may run
    /// past the end of the stream, where every token is `Eof`.
    pub closed spec fn index(&self) -> int {
        self.index@
    }

    /// The errors recorded so far.
    pub closed spec fn diagnostics(&self) -> Seq<ParseErrorView> {
        errors_view(self.errors@)
    }

    /// The parser's fields agree with its stream and its index.
    pub closed spec fn wf(&self) -> bool {
        let ts = self.tokens@;
        let i = self.index@;
        &&& is_stream(ts)
        &&& ts.len() - 1 <= usize::MAX
        &&& 0 <= i
        &&& self.cur_token@ == tok(ts, i)
        &&& self.peek_token@ == tok(ts, i + 1)
        &&& self.lexer.remaining() == rest(ts, i + 2)
        &&& self.position == if i < ts.len() - 1 {
            i
        } else {
            ts.len() - 1
        }
    }

    /// This parser has come from `before` by parsing `p`.
    pub open spec fn follows<T>(&self, before: &Parser, p: Parsed<T>) -> bool {
        &&& self.wf()
        &&& self.tokens() == before.tokens()
        &&& self.index() == before.index() + p.used
        &&& self.diagnostics() == before.diagnostics() + p.errors
    }

    /// A parser at the first token that `lexer` yields.
    pub fn new(lexer: Lexer) -> (p: Parser)
        ensures
            p.wf(),
            p.tokens() == lexer.remaining(),
            p.index() == 0,
            p.diagnostics() == Seq::<ParseErrorView>::empty(),
    {
        let ghost ts = lexer.remaining();
        let ghost text = lexer.text();
        let ghost start = lexer.offset();
        let mut lexer = lexer;
        let cur = lexer.next_token();
        let ghost middle = lexer.offset();
        let peek = lexer.next_token();
        proof {
            lemma_tokens_from_is_stream(text, start);
            lemma_tokens_from_step(text, start);
            lemma_tokens_from_step(text, middle);
            if !(cur@ is Eof) {
                assert(ts.skip(1)[0] == ts[1]);
                if !(peek@ is Eof) {
                    assert(ts.skip(1).skip(1) =~= ts.skip(2));
                }
            }
        }
        let p = Parser {
            lexer,
            cur_token: cur,
            peek_token: peek,
            errors: Vec::new(),
            position: 0,
            tokens: Ghost(ts),
            index: Ghost(0),
        };
        assert(p.diagnostics() =~= Seq::<ParseErrorView>::empty());
        p
    }

    /// The errors recorded so far: each token that was found where another
    /// was required.
    pub fn errors(&self) -> (r: &Vec<ParseError>)
        ensures
            errors_view(r@) == self.diagnostics(),
    {
        &self.errors
    }

    /// Moves the cursor one token further.
    fn next_token(&mut self)
        requires
            old(self).wf(),
        ensures
            final(self).wf(),
            final(self).tokens() == old(self).tokens(),
            final(self).index() == old(self).index() + 1,
            final(self).diagnostics() == old(self).diagnostics(),
    {
        let ghost ts = self.tokens@;
        let ghost i = self.index@;
        let ghost text = self.lexer.text();
        let ghost offset = self.lexer.offset();
        let at_end = self.cur_token_is(&Token::Eof);
        let next = self.lexer.next_token();
        proof {
            lemma_tokens_from_step(text, offset);
            if i + 2 < ts.len() {
                assert(ts.skip(i + 2)[0] == ts[i + 2]);
                if !(next@ is Eof) {
                    assert(ts.skip(i + 2).skip(1) =~= ts.skip(i + 3));
                }
            }
        }
        self.cur_token = self.peek_token.clone();
        self.peek_token = next;
        if !at_end {
            self.position = self.position + 1;
        }
        self.index = Ghost(i + 1);
    }

    fn cur_token_is(&self, t: &Token) -> (r: bool)
        ensures
            r == (self.cur_token@ == t@),
    {
        self.cur_token.same(t)
    }

    fn peek_token_is(&self, t: &Token) -> (r: bool)
        ensures
            r == (self.peek_token@ == t@),
    {
        self.peek_token.same(t)
    }

    /// Moves onto the token behind the cursor if it is `t`; records an error
    /// and stays if it is not.
    fn expect_peek(&mut self, t: Token) -> (r: bool)
        requires
            old(self).wf(),
        ensures
            final(self).follows(old(self), expect_spec(old(self).tokens(), old(self).index(), t@)),
            r == expect_spec(old(self).tokens(), old(self).index(), t@).value,
    {
        if self.peek_token_is(&t) {
            self.next_token();
            assert(self.diagnostics() =~= old(self).diagnostics() + Seq::<ParseErrorView>::empty());
            true
        } else {
            self.peek_error(t);
            false
        }
    }

    /// Records that the token behind the cursor was found where `t` was required.
    fn peek_error(&mut self, t: Token)
        requires
            old(self).wf(),
        ensures
            final(self).wf(),
            final(self).tokens() == old(self).tokens(),
            final(self).index() == old(self).index(),
            final(self).diagnostics() == old(self).diagnostics() + seq![
                mismatch(old(self).tokens(), old(self).index() + 1, t@),
            ],
    {
        let position = if self.cur_token_is(&Token::Eof) {
            self.position
        } else {
            self.position + 1
        };
        let error = ParseError { expected: t, actual: self.peek_token.clone(), position };
        self.errors.push(error);
        assert(self.diagnostics() =~= old(self).diagnostics() + seq![
            mismatch(old(self).tokens(), old(self).index() + 1, t@),
        ]);
    }

    /// Records that the token under the cursor was found where `t` was required.
    fn cur_error(&mut self, t: Token)
        requires
            old(self).wf(),
        ensures
            final(self).wf(),
            final(self).tokens() == old(self).tokens(),
            final(self).index() == old(self).index(),
            final(self).diagnostics() == old(self).diagnostics() + seq![
                mismatch(old(self).tokens(), old(self).index(), t@),
            ],
    {
        let error = ParseError {
            expected: t,
            actual: self.cur_token.clone(),
            position: self.position,
        };
        self.errors.push(error);
        assert(self.diagnostics() =~= old(self).diagnostics() + seq![
            mismatch(old(self).tokens(), old(self).index(), t@),
        ]);
    }

    /// Parses a type expression whose first token is under the cursor.
    fn parse_type(&mut self) -> (r: DataTypeStatement)
        requires
            old(self).wf(),
        ensures
            final(self).follows(old(self), type_spec(old(self).tokens(), old(self).index())),
            r@ == type_spec(old(self).tokens(), old(self).index()).value,
        decreases left(old(self).tokens(), old(self).index()), 0nat,
    {
        let ghost ts = self.tokens();
        let ghost i = self.index();
        let ghost d0 = self.diagnostics();
        let first = self.cur_token.clone();
        if self.peek_token_is(&Token::Lt) {
            self.next_token();
            self.next_token();
            let data_type = self.parse_type_arguments(first);
            let ghost body = arguments_spec(ts, tok(ts, i), i + 2);
            if !self.expect_peek(Token::Gt) {
                assert(self.diagnostics() =~= d0 + body.errors.push(
                    mismatch(ts, i + 2 + body.used + 1, TokenView::Gt),
                ));
                return DataTypeStatement::Nothing;
            }
            assert(self.diagnostics() =~= d0 + body.errors);
            data_type
        } else {
            assert(self.diagnostics() =~= d0 + Seq::<ParseErrorView>::empty());
            Parser::simple_type(first)
        }
    }

    /// The type that one token names by itself.
    fn simple_type(t: Token) -> (r: DataTypeStatement)
        ensures
            r@ == simple_type(t@),
    {
        match t {
            Token::Type(d, _) => DataTypeStatement::from_data_type(&d),
            Token::Ident(s) => DataTypeStatement::Object(
                Identifier { token: Token::Ident(s.clone()), value: s },
            ),
            _ => DataTypeStatement::Nothing,
        }
    }

    /// Parses the type arguments of `head`; the first of them is under the cursor.
    fn parse_type_arguments(&mut self, head: Token) -> (r: DataTypeStatement)
        requires
            old(self).wf(),
        ensures
            final(self).follows(
                old(self),
                arguments_spec(old(self).tokens(), head@, old(self).index()),
            ),
            r@ == arguments_spec(old(self).tokens(), head@, old(self).index()).value,
        decreases left(old(self).tokens(), old(self).index()), 2nat,
    {
        let ghost ts = self.tokens();
        let ghost j = self.index();
        let ghost d0 = self.diagnostics();
        match head {
            Token::Type(d, _) => {
                match d {
                    DataType::MapOf => {
                        let key = self.parse_generic_type();
                        let ghost k = generic_spec(ts, j);
                        if self.expect_peek(Token::Comma) {
                            self.next_token();
                            let value = self.parse_generic_type();
                            proof {
                                let v = generic_spec(ts, j + k.used + 2);
                                assert(self.diagnostics() =~= d0 + (k.errors + v.errors));
                            }
                            DataTypeStatement::MapOf(Arc::new(key), Arc::new(value))
                        } else {
                            assert(self.diagnostics() =~= d0 + k.errors.push(
                                mismatch(ts, j + k.used + 1, TokenView::Comma),
                            ));
                            DataTypeStatement::Nothing
                        }
                    },
                    DataType::List => DataTypeStatement::List(Arc::new(self.parse_generic_type())),
                    DataType::SetOf => DataTypeStatement::SetOf(
                        Arc::new(self.parse_generic_type()),
                    ),
                    _ => {
                        assert(self.diagnostics() =~= d0 + Seq::<ParseErrorView>::empty());
                        DataTypeStatement::from_data_type(&d)
                    },
                }
            },
            Token::Ident(s) => {
                assert(self.diagnostics() =~= d0 + Seq::<ParseErrorView>::empty());
                DataTypeStatement::Object(Identifier { token: self.cur_token.clone(), value: s })
            },
            _ => {
                assert(self.diagnostics() =~= d0 + Seq::<ParseErrorView>::empty());
                DataTypeStatement::Nothing
            },
        }
    }

    /// Parses a type argument whose first token is under the cursor.
    fn parse_generic_type(&mut self) -> (r: DataTypeStatement)
        requires
            old(self).wf(),
        ensures
            final(self).follows(old(self), generic_spec(old(self).tokens(), old(self).index())),
            r@ == generic_spec(old(self).tokens(), old(self).index()).value,
        decreases left(old(self).tokens(), old(self).index()), 1nat,
    {
        let tok = self.cur_token.clone();
        assert(self.diagnostics() =~= self.diagnostics() + Seq::<ParseErrorView>::empty());
        match tok {
            Token::Type(DataType::List, _) | Token::Type(DataType::SetOf, _) | Token::Type(
                DataType::MapOf,
                _,
            ) => self.parse_type(),
            _ => Parser::simple_type(tok),
        }
    }

    /// The statement of the comment under the cursor.
    fn parse_comment_statement(&self) -> (r: Statement)
        ensures
            r@ == comment_spec(self.cur_token@),
    {
        match &self.cur_token {
            Token::Comment(s) => Statement {
                stmtKind: StatementKind::Comment(Token::Comment(s.clone()), s.clone()),
            },
            _ => Statement::new(),
        }
    }

    /// The text of an identifier token, and the empty text for any other token.
    fn get_ident_string(ident: &Token) -> (r: String)
        ensures
            r@ == ident_string(ident@),
    {
        match ident {
            Token::Ident(s) => s.clone(),
            _ => String::new(),
        }
    }

    /// Parses the return type of a function; the cursor is on the `)`.
    fn parse_return_type(&mut self) -> (r: DataTypeStatement)
        requires
            old(self).wf(),
        ensures
            final(self).follows(old(self), return_type_spec(old(self).tokens(), old(self).index())),
            r@ == return_type_spec(old(self).tokens(), old(self).index()).value,
    {
        let ghost ts = self.tokens();
        let ghost i = self.index();
        let ghost d0 = self.diagnostics();
        self.next_token();
        if self.cur_token_is(&Token::Colon) {
            self.next_token();
            let t = self.parse_type();
            let ghost ty = type_spec(ts, i + 2);
            if self.expect_peek(Token::Semicolon) {
                assert(self.diagnostics() =~= d0 + ty.errors);
                return t;
            }
            assert(self.diagnostics() =~= d0 + ty.errors.push(
                mismatch(ts, i + 2 + ty.used + 1, TokenView::Semicolon),
            ));
            return DataTypeStatement::Nothing;
        }
        assert(self.diagnostics() =~= d0 + Seq::<ParseErrorView>::empty());
        DataTypeStatement::Nothing
    }

    /// One round over the parameters of a function.
    fn parse_parameter(&mut self, parameters: &mut Vec<Parameter>)
        requires
            old(self).wf(),
        ensures
            final(self).follows(old(self), parameter_spec(old(self).tokens(), old(self).index())),
            parameters_view(final(parameters)@) == parameters_view(old(parameters)@)
                + parameter_spec(old(self).tokens(), old(self).index()).value,
    {
        let ghost ts = self.tokens();
        let ghost i = self.index();
        let ghost d0 = self.diagnostics();
        let ghost held = parameters@;
        match self.cur_token.clone() {
            Token::Ident(s) => {
                if self.expect_peek(Token::Colon) {
                    self.next_token();
                    let t = self.parse_type();
                    let id = Identifier { token: Token::Ident(s.clone()), value: s };
                    parameters.push(Parameter { ident: id, data_type: t });
                    if self.peek_token_is(&Token::Comma) {
                        self.next_token();
                    }
                    assert(self.diagnostics() =~= d0 + type_spec(ts, i + 2).errors);
                    assert(parameters_view(parameters@) =~= parameters_view(held) + parameter_spec(
                        ts,
                        i,
                    ).value);
                } else {
                    assert(parameters_view(parameters@) =~= parameters_view(held) + parameter_spec(
                        ts,
                        i,
                    ).value);
                }
            },
            _ => {
                assert(self.diagnostics() =~= d0 + Seq::<ParseErrorView>::empty());
                assert(parameters_view(parameters@) =~= parameters_view(held) + parameter_spec(
                    ts,
                    i,
                ).value);
            },
        }
    }

    /// Parses the parameters of a function; the cursor is on the token behind the `(`.
    fn parse_parameters(&mut self) -> (r: Vec<Parameter>)
        requires
            old(self).wf(),
        ensures
            final(self).follows(old(self), parameters_spec(old(self).tokens(), old(self).index())),
            parameters_view(r@) == parameters_spec(old(self).tokens(), old(self).index()).value,
    {
        let ghost ts = self.tokens();
        let ghost i0 = self.index();
        let ghost d0 = self.diagnostics();
        let mut parameters: Vec<Parameter> = Vec::new();
        assert(parameters_view(parameters@) =~= Seq::<ParameterView>::empty());
        if self.peek_token_is(&Token::RParen) {
            self.next_token();
            assert(self.diagnostics() =~= d0 + Seq::<ParseErrorView>::empty());
            return parameters;
        }
        let ghost whole = parameters_loop(ts, i0);
        assert(d0 + whole.errors =~= self.diagnostics() + whole.errors);
        assert(whole.value =~= parameters_view(parameters@) + whole.value);
        while !self.cur_token_is(&Token::RParen) && !self.cur_token_is(&Token::Eof)
            invariant
                self.wf(),
                self.tokens() == ts,
                self.index() >= i0,
                whole.value == parameters_view(parameters@) + parameters_loop(
                    ts,
                    self.index(),
                ).value,
                whole.used == (self.index() - i0) + parameters_loop(ts, self.index()).used,
                d0 + whole.errors == self.diagnostics() + parameters_loop(ts, self.index()).errors,
            decreases left(ts, self.index()),
        {
            let ghost i = self.index();
            let ghost before = parameters_view(parameters@);
            let ghost d = self.diagnostics();
            self.parse_parameter(&mut parameters);
            self.next_token();
            proof {
                let head = parameter_spec(ts, i);
                let rest = parameters_loop(ts, i + head.used + 1);
                assert(parameters_view(parameters@) + rest.value =~= before + (head.value
                    + rest.value));
                assert(self.diagnostics() + rest.errors =~= d + (head.errors + rest.errors));
            }
        }
        if !self.cur_token_is(&Token::RParen) {
            self.cur_error(Token::RParen);
        }
        assert(self.diagnostics() =~= d0 + whole.errors);
        assert(parameters_view(parameters@) =~= whole.value);
        parameters
    }

    /// Parses the value of a constant whose first token is under the cursor.
    fn parse_const_value(&mut self) -> (r: Statement)
        requires
            old(self).wf(),
        ensures
            final(self).follows(old(self), const_value_spec(old(self).tokens(), old(self).index())),
            r@ == const_value_spec(old(self).tokens(), old(self).index()).value,
        decreases left(old(self).tokens(), old(self).index()), 1nat,
    {
        let tok = self.cur_token.clone();
        assert(self.diagnostics() =~= self.diagnostics() + Seq::<ParseErrorView>::empty());
        match tok {
            Token::StringToken(s) => Statement {
                stmtKind: StatementKind::StringLiteral(Token::StringToken(s.clone()), s),
            },
            Token::True => Statement { stmtKind: StatementKind::Boolean(Token::True, true) },
            Token::False => Statement { stmtKind: StatementKind::Boolean(Token::False, false) },
            Token::Number(s) => Statement {
                stmtKind: StatementKind::NumberLiteral(Token::Number(s.clone()), s),
            },
            Token::LBrace => self.parse_const_block(),
            _ => Statement::new(),
        }
    }

    /// Parses a block of definitions; the cursor is on its `{`.
    fn parse_const_block(&mut self) -> (r: Statement)
        requires
            old(self).wf(),
            tok(old(self).tokens(), old(self).index()) == TokenView::LBrace,
        ensures
            final(self).follows(old(self), const_value_spec(old(self).tokens(), old(self).index())),
            r@ == const_value_spec(old(self).tokens(), old(self).index()).value,
        decreases left(old(self).tokens(), old(self).index()), 0nat,
    {
        let ghost ts = self.tokens();
        let ghost i0 = self.index();
        let ghost d0 = self.diagnostics();
        self.next_token();
        let ghost whole = const_entries_spec(ts, i0 + 1);
        let mut statements: Vec<Statement> = Vec::new();
        assert(statements_view(statements@) =~= Seq::<StatementView>::empty());
        assert(d0 + whole.errors =~= self.diagnostics() + whole.errors);
        while !self.cur_token_is(&Token::RBrace) && !self.cur_token_is(&Token::Eof)
            invariant
                self.wf(),
                self.tokens() == ts,
                self.index() >= i0 + 1,
                tok(ts, i0) == TokenView::LBrace,
                ts == old(self).tokens(),
                i0 == old(self).index(),
                d0 == old(self).diagnostics(),
                whole == const_entries_spec(ts, i0 + 1),
                left(ts, self.index()) < left(ts, i0),
                whole.value == match const_entries_spec(ts, self.index()).value {
                    Some(more) => Some(statements_view(statements@) + more),
                    None => None,
                },
                whole.used == (self.index() - i0 - 1) + const_entries_spec(ts, self.index()).used,
                d0 + whole.errors == self.diagnostics() + const_entries_spec(
                    ts,
                    self.index(),
                ).errors,
            decreases left(ts, self.index()),
        {
            let ghost k = self.index();
            let ghost before = statements_view(statements@);
            let ghost d = self.diagnostics();
            let ident = self.cur_token.clone();
            if !self.expect_peek(Token::Equal) {
                assert(self.diagnostics() =~= d0 + whole.errors);
                return Statement::new();
            }
            self.next_token();
            let value = self.parse_const_value();
            let name = Parser::get_ident_string(&ident);
            let definition = Statement {
                stmtKind: StatementKind::Definition(
                    Identifier { token: ident, value: name },
                    Arc::new(value),
                ),
            };
            proof {
                lemma_statements_view_push(statements@, definition);
            }
            statements.push(definition);
            if self.peek_token_is(&Token::Comma) {
                self.next_token();
            }
            self.next_token();
            proof {
                let v = const_value_spec(ts, k + 2);
                let rest = const_entries_spec(ts, self.index());
                assert(self.diagnostics() + rest.errors =~= d + (v.errors + rest.errors));
                match rest.value {
                    Some(more) => {
                        assert(statements_view(statements@) + more =~= before + (seq![
                            definition@,
                        ] + more));
                    },
                    None => {},
                }
            }
        }
        if !self.cur_token_is(&Token::RBrace) {
            self.cur_error(Token::RBrace);
        }
        assert(self.diagnostics() =~= d0 + whole.errors);
        assert(statements_view(statements@) =~= whole.value->0);
        let block = BlockStatement { token: Token::Const, statements };
        assert(block@ == BlockView { token: TokenView::Const, statements: whole.value->0 });
        Statement { stmtKind: StatementKind::Block(block) }
    }

    /// Parses a constant; the cursor is on `const`.
    fn parse_const_statement(&mut self) -> (r: Statement)
        requires
            old(self).wf(),
        ensures
            final(self).follows(
                old(self),
                const_statement_spec(old(self).tokens(), old(self).index()),
            ),
            r@ == const_statement_spec(old(self).tokens(), old(self).index()).value,
    {
        let ghost ts = self.tokens();
        let ghost i = self.index();
        let ghost d0 = self.diagnostics();
        let const_tok = self.cur_token.clone();
        self.next_token();
        let ident = self.cur_token.clone();
        let ident_name = Parser::get_ident_string(&ident);
        if !self.expect_peek(Token::Colon) {
            return Statement::new();
        }
        self.next_token();
        let const_type = self.parse_type();
        let ghost ty = type_spec(ts, i + 3);
        if !self.expect_peek(Token::Equal) {
            assert(self.diagnostics() =~= d0 + ty.errors.push(
                mismatch(ts, i + 3 + ty.used + 1, TokenView::Equal),
            ));
            return Statement::new();
        }
        self.next_token();
        let value = self.parse_const_value();
        assert(self.diagnostics() =~= d0 + (ty.errors + const_value_spec(
            ts,
            i + 3 + ty.used + 2,
        ).errors));
        Statement {
            stmtKind: StatementKind::Const(
                const_tok,
                Identifier { token: ident, value: ident_name },
                const_type,
                Arc::new(value),
            ),
        }
    }

    /// One round over the body of an enum.
    fn parse_enum_member(&mut self, statements: &mut Vec<Statement>)
        requires
            old(self).wf(),
        ensures
            final(self).follows(old(self), enum_member_spec(old(self).tokens(), old(self).index())),
            statements_view(final(statements)@) == statements_view(old(statements)@)
                + enum_member_spec(old(self).tokens(), old(self).index()).value,
    {
        let ghost s0 = statements@;
        assert(self.diagnostics() =~= self.diagnostics() + Seq::<ParseErrorView>::empty());
        assert(statements_view(s0) =~= statements_view(s0) + Seq::<StatementView>::empty());
        match self.cur_token.clone() {
            Token::Ident(s) => {
                if self.peek_token_is(&Token::Semicolon) {
                    let member = Statement {
                        stmtKind: StatementKind::EnumMember(
                            Token::Ident(s.clone()),
                            Identifier { token: Token::Ident(s.clone()), value: s },
                        ),
                    };
                    proof {
                        lemma_statements_view_push(statements@, member);
                    }
                    statements.push(member);
                }
            },
            Token::Comment(_) => {
                let comment = self.parse_comment_statement();
                proof {
                    lemma_statements_view_push(statements@, comment);
                }
                statements.push(comment);
            },
            _ => {},
        }
    }

    /// Parses an enum whose name is the token `name`; the cursor is on the `{`.
    fn parse_enum_statement(&mut self, name: Token) -> (r: Statement)
        requires
            old(self).wf(),
        ensures
            final(self).follows(
                old(self),
                enum_statement_spec(old(self).tokens(), name@, old(self).index()),
            ),
            r@ == enum_statement_spec(old(self).tokens(), name@, old(self).index()).value,
    {
        let ghost ts = self.tokens();
        let ghost i0 = self.index();
        let ghost d0 = self.diagnostics();
        let ghost whole = enum_body_spec(ts, i0);
        let mut statements: Vec<Statement> = Vec::new();
        assert(statements_view(statements@) =~= Seq::<StatementView>::empty());
        assert(d0 + whole.errors =~= self.diagnostics() + whole.errors);
        assert(whole.value =~= statements_view(statements@) + whole.value);
        while !self.cur_token_is(&Token::RBrace) && !self.cur_token_is(&Token::Eof)
            invariant
                self.wf(),
                self.tokens() == ts,
                self.index() >= i0,
                whole.value == statements_view(statements@) + enum_body_spec(
                    ts,
                    self.index(),
                ).value,
                whole.used == (self.index() - i0) + enum_body_spec(ts, self.index()).used,
                d0 + whole.errors == self.diagnostics() + enum_body_spec(
                    ts,
                    self.index(),
                ).errors,
            decreases left(ts, self.index()),
        {
            let ghost i = self.index();
            let ghost before = statements_view(statements@);
            let ghost d = self.diagnostics();
            self.parse_enum_member(&mut statements);
            self.next_token();
            proof {
                let head = enum_member_spec(ts, i);
                let rest = enum_body_spec(ts, i + head.used + 1);
                assert(statements_view(statements@) + rest.value =~= before + (head.value
                    + rest.value));
                assert(self.diagnostics() + rest.errors =~= d + (head.errors + rest.errors));
            }
        }
        if !self.cur_token_is(&Token::RBrace) {
            self.cur_error(Token::RBrace);
        }
        assert(self.diagnostics() =~= d0 + whole.errors);
        assert(statements_view(statements@) =~= whole.value);
        let block = BlockStatement { token: Token::Enum, statements };
        assert(block@ == BlockView { token: TokenView::Enum, statements: whole.value });
        let value = name.to_str();
        Statement {
            stmtKind: StatementKind::Enum(Token::Enum, Identifier { token: name, value }, block),
        }
    }

    /// One round over the body of a record.
    fn parse_record_member(&mut self, statements: &mut Vec<Statement>)
        requires
            old(self).wf(),
        ensures
            final(self).follows(
                old(self),
                record_member_spec(old(self).tokens(), old(self).index()),
            ),
            statements_view(final(statements)@) == statements_view(old(statements)@)
                + record_member_spec(old(self).tokens(), old(self).index()).value,
    {
        let ghost ts = self.tokens();
        let ghost i = self.index();
        let ghost d0 = self.diagnostics();
        let ghost s0 = statements@;
        assert(statements_view(s0) =~= statements_view(s0) + Seq::<StatementView>::empty());
        match self.cur_token.clone() {
            Token::Ident(s) => {
                if self.expect_peek(Token::Colon) {
                    self.next_token();
                    let ty = self.parse_type();
                    let member = Statement {
                        stmtKind: StatementKind::RecordMember(
                            Token::Ident(s.clone()),
                            Identifier { token: Token::Ident(s.clone()), value: s },
                            ty,
                        ),
                    };
                    proof {
                        lemma_statements_view_push(statements@, member);
                    }
                    statements.push(member);
                    assert(self.diagnostics() =~= d0 + type_spec(ts, i + 2).errors);
                }
            },
            Token::Comment(_) => {
                let comment = self.parse_comment_statement();
                proof {
                    lemma_statements_view_push(statements@, comment);
                }
                statements.push(comment);
                assert(self.diagnostics() =~= d0 + Seq::<ParseErrorView>::empty());
            },
            Token::Const => {
                let constant = self.parse_const_statement();
                proof {
                    lemma_statements_view_push(statements@, constant);
                }
                statements.push(constant);
            },
            _ => {
                assert(self.diagnostics() =~= d0 + Seq::<ParseErrorView>::empty());
            },
        }
    }

    /// Parses a record whose name is the token `name`; the cursor is on the `{`.
    fn parse_record_statement(&mut self, name: Token) -> (r: Statement)
        requires
            old(self).wf(),
        ensures
            final(self).follows(
                old(self),
                record_statement_spec(old(self).tokens(), name@, old(self).index()),
            ),
            r@ == record_statement_spec(old(self).tokens(), name@, old(self).index()).value,
    {
        let ghost ts = self.tokens();
        let ghost i0 = self.index();
        let ghost d0 = self.diagnostics();
        let ghost whole = record_body_spec(ts, i0);
        let mut statements: Vec<Statement> = Vec::new();
        assert(statements_view(statements@) =~= Seq::<StatementView>::empty());
        assert(d0 + whole.errors =~= self.diagnostics() + whole.errors);
        assert(whole.value =~= statements_view(statements@) + whole.value);
        while !self.cur_token_is(&Token::RBrace) && !self.cur_token_is(&Token::Eof)
            invariant
                self.wf(),
                self.tokens() == ts,
                self.index() >= i0,
                whole.value == statements_view(statements@) + record_body_spec(
                    ts,
                    self.index(),
                ).value,
                whole.used == (self.index() - i0) + record_body_spec(ts, self.index()).used,
                d0 + whole.errors == self.diagnostics() + record_body_spec(
                    ts,
                    self.index(),
                ).errors,
            decreases left(ts, self.index()),
        {
            let ghost i = self.index();
            let ghost before = statements_view(statements@);
            let ghost d = self.diagnostics();
            self.parse_record_member(&mut statements);
            self.next_token();
            proof {
                let head = record_member_spec(ts, i);
                let rest = record_body_spec(ts, i + head.used + 1);
                assert(statements_view(statements@) + rest.value =~= before + (head.value
                    + rest.value));
                assert(self.diagnostics() + rest.errors =~= d + (head.errors + rest.errors));
            }
        }
        if !self.cur_token_is(&Token::RBrace) {
            self.cur_error(Token::RBrace);
        }
        assert(self.diagnostics() =~= d0 + whole.errors);
        assert(statements_view(statements@) =~= whole.value);
        let block = BlockStatement { token: Token::Record, statements };
        assert(block@ == BlockView { token: TokenView::Record, statements: whole.value });
        let derived = self.parse_derives();
        assert(self.diagnostics() =~= d0 + (whole.errors + derives_spec(
            ts,
            i0 + whole.used,
        ).errors));
        let value = name.to_str();
        Statement {
            stmtKind: StatementKind::Record(
                Token::Record,
                Identifier { token: name, value },
                block,
                derived,
            ),
        }
    }

    /// Parses a function whose name `name` is under the cursor.
    fn parse_function(
        &mut self,
        name: String,
        modifier: FunctionModifier,
        statements: &mut Vec<Statement>,
    ) -> (r: bool)
        requires
            old(self).wf(),
            tok(old(self).tokens(), old(self).index()) == TokenView::Ident(name@),
        ensures
            final(self).follows(
                old(self),
                function_spec(old(self).tokens(), old(self).index(), modifier),
            ),
            statements_view(final(statements)@) == statements_view(old(statements)@)
                + function_spec(old(self).tokens(), old(self).index(), modifier).value,
            r == (tok(old(self).tokens(), old(self).index() + 1) == TokenView::LParen),
    {
        let ghost ts = self.tokens();
        let ghost i = self.index();
        let ghost d0 = self.diagnostics();
        let ghost s0 = statements@;
        if !self.expect_peek(Token::LParen) {
            assert(statements_view(s0) =~= statements_view(s0) + Seq::<StatementView>::empty());
            return false;
        }
        self.next_token();
        let parameters = self.parse_parameters();
        let ret = self.parse_return_type();
        let function = Statement {
            stmtKind: StatementKind::Function(
                Token::Ident(name.clone()),
                modifier,
                Identifier { token: Token::Ident(name.clone()), value: name },
                parameters,
                ret,
            ),
        };
        proof {
            lemma_statements_view_push(statements@, function);
            let p = parameters_spec(ts, i + 2);
            let r = return_type_spec(ts, i + 2 + p.used);
            assert(self.diagnostics() =~= d0 + (p.errors + r.errors));
        }
        statements.push(function);
        true
    }

    /// One round over the body of an interface; `modifier` is what the next
    /// function takes.
    fn parse_interface_member(
        &mut self,
        statements: &mut Vec<Statement>,
        modifier: &mut FunctionModifier,
    )
        requires
            old(self).wf(),
        ensures
            final(self).follows(
                old(self),
                interface_member_spec(old(self).tokens(), old(self).index(), *old(modifier)),
            ),
            statements_view(final(statements)@) == statements_view(old(statements)@)
                + interface_member_spec(
                old(self).tokens(),
                old(self).index(),
                *old(modifier),
            ).value,
            *final(modifier) == modifier_after(
                old(self).tokens(),
                old(self).index(),
                *old(modifier),
            ),
    {
        let ghost d0 = self.diagnostics();
        let ghost s0 = statements@;
        match self.cur_token.clone() {
            Token::Static => {
                *modifier = FunctionModifier::Static;
                assert(self.diagnostics() =~= d0 + Seq::<ParseErrorView>::empty());
                assert(statements_view(s0) =~= statements_view(s0) + Seq::<StatementView>::empty());
            },
            Token::Ident(s) => {
                if self.parse_function(s, *modifier, statements) {
                    *modifier = FunctionModifier::Nothing;
                }
            },
            Token::Comment(_) => {
                let comment = self.parse_comment_statement();
                proof {
                    lemma_statements_view_push(statements@, comment);
                }
                statements.push(comment);
                assert(self.diagnostics() =~= d0 + Seq::<ParseErrorView>::empty());
            },
            Token::Const => {
                let constant = self.parse_const_statement();
                proof {
                    lemma_statements_view_push(statements@, constant);
                }
                statements.push(constant);
            },
            _ => {
                assert(self.diagnostics() =~= d0 + Seq::<ParseErrorView>::empty());
                assert(statements_view(s0) =~= statements_view(s0) + Seq::<StatementView>::empty());
            },
        }
    }

    /// Parses the targets of an interface, up to the `{` of its body.
    fn parse_targets(&mut self) -> (r: Vec<InterfaceType>)
        requires
            old(self).wf(),
        ensures
            final(self).follows(old(self), targets_spec(old(self).tokens(), old(self).index())),
            r@ == targets_spec(old(self).tokens(), old(self).index()).value,
    {
        let ghost ts = self.tokens();
        let ghost i0 = self.index();
        let ghost d0 = self.diagnostics();
        let ghost whole = targets_spec(ts, i0);
        let mut interface_types: Vec<InterfaceType> = Vec::new();
        assert(d0 + whole.errors =~= self.diagnostics() + whole.errors);
        assert(whole.value =~= interface_types@ + whole.value);
        while !self.cur_token_is(&Token::LBrace) && !self.cur_token_is(&Token::Eof)
            invariant
                self.wf(),
                self.tokens() == ts,
                self.index() >= i0,
                whole.value == interface_types@ + targets_spec(ts, self.index()).value,
                whole.used == (self.index() - i0) + targets_spec(ts, self.index()).used,
                d0 + whole.errors == self.diagnostics() + targets_spec(ts, self.index()).errors,
            decreases left(ts, self.index()),
        {
            let ghost i = self.index();
            let ghost before = interface_types@;
            match &self.cur_token {
                Token::JavaInterface => {
                    interface_types.push(InterfaceType::Java);
                },
                Token::ObjCInterface => {
                    interface_types.push(InterfaceType::ObjectiveC);
                },
                Token::CppInterface => {
                    interface_types.push(InterfaceType::Cpp);
                },
                _ => {},
            }
            self.next_token();
            proof {
                let head = target_spec(tok(ts, i));
                let rest = targets_spec(ts, i + 1);
                assert(interface_types@ =~= before + head.value);
                assert(interface_types@ + rest.value =~= before + (head.value + rest.value));
                assert(head.errors + rest.errors =~= rest.errors);
            }
        }
        if !self.cur_token_is(&Token::LBrace) {
            self.cur_error(Token::LBrace);
        }
        assert(self.diagnostics() =~= d0 + whole.errors);
        assert(interface_types@ =~= whole.value);
        interface_types
    }

    /// Parses the body of an interface; the cursor is on its `{`.
    fn parse_interface_body(&mut self) -> (r: BlockStatement)
        requires
            old(self).wf(),
        ensures
            final(self).follows(
                old(self),
                interface_body_spec(
                    old(self).tokens(),
                    old(self).index(),
                    FunctionModifier::Nothing,
                ),
            ),
            r@ == (BlockView {
                token: TokenView::Interface,
                statements: interface_body_spec(
                    old(self).tokens(),
                    old(self).index(),
                    FunctionModifier::Nothing,
                ).value,
            }),
    {
        let ghost ts = self.tokens();
        let ghost i0 = self.index();
        let ghost d0 = self.diagnostics();
        let mut modifier = FunctionModifier::Nothing;
        let ghost whole = interface_body_spec(ts, i0, FunctionModifier::Nothing);
        let mut statements: Vec<Statement> = Vec::new();
        assert(statements_view(statements@) =~= Seq::<StatementView>::empty());
        assert(d0 + whole.errors =~= self.diagnostics() + whole.errors);
        assert(whole.value =~= statements_view(statements@) + whole.value);
        while !self.cur_token_is(&Token::RBrace) && !self.cur_token_is(&Token::Eof)
            invariant
                self.wf(),
                self.tokens() == ts,
                self.index() >= i0,
                whole.value == statements_view(statements@) + interface_body_spec(
                    ts,
                    self.index(), modifier,
                ).value,
                whole.used
                    == (self.index() - i0) + interface_body_spec(ts, self.index(), modifier).used,
                d0 + whole.errors == self.diagnostics() + interface_body_spec(
                    ts,
                    self.index(), modifier,
                ).errors,
            decreases left(ts, self.index()),
        {
            let ghost i = self.index();
            let ghost before = statements_view(statements@);
            let ghost d = self.diagnostics();
            let ghost m = modifier;
            self.parse_interface_member(&mut statements, &mut modifier);
            self.next_token();
            proof {
                let head = interface_member_spec(ts, i, m);
                let rest = interface_body_spec(ts, i + head.used + 1, modifier);
                assert(statements_view(statements@) + rest.value =~= before + (head.value
                    + rest.value));
                assert(self.diagnostics() + rest.errors =~= d + (head.errors + rest.errors));
            }
        }
        if !self.cur_token_is(&Token::RBrace) {
            self.cur_error(Token::RBrace);
        }
        assert(self.diagnostics() =~= d0 + whole.errors);
        assert(statements_view(statements@) =~= whole.value);
        let block = BlockStatement { token: Token::Interface, statements };
        assert(block@ == BlockView { token: TokenView::Interface, statements: whole.value });
        block
    }

    /// Parses an interface whose name is the token `name`; the cursor is on
    /// the token behind the word `interface`.
    fn parse_interface_statement(&mut self, name: Token) -> (r: Statement)
        requires
            old(self).wf(),
        ensures
            final(self).follows(
                old(self),
                interface_statement_spec(old(self).tokens(), name@, old(self).index()),
            ),
            r@ == interface_statement_spec(old(self).tokens(), name@, old(self).index()).value,
    {
        let ghost ts = self.tokens();
        let ghost i0 = self.index();
        let ghost d0 = self.diagnostics();
        let interface_types = self.parse_targets();
        let block = self.parse_interface_body();
        let derived = self.parse_derives();
        proof {
            let t = targets_spec(ts, i0);
            let b = interface_body_spec(ts, i0 + t.used, FunctionModifier::Nothing);
            let d = derives_spec(ts, i0 + t.used + b.used);
            assert(self.diagnostics() =~= d0 + (t.errors + b.errors + d.errors));
        }
        let value = name.to_str();
        Statement {
            stmtKind: StatementKind::Interface(
                Token::Interface,
                Identifier { token: name, value },
                interface_types,
                block,
                derived,
            ),
        }
    }

    /// Parses the `deriving` clause behind a body, if there is one; the
    /// cursor is on the `}` of the body.
    fn parse_derives(&mut self) -> (r: Vec<DeriveType>)
        requires
            old(self).wf(),
        ensures
            final(self).follows(old(self), derives_spec(old(self).tokens(), old(self).index())),
            r@ == derives_spec(old(self).tokens(), old(self).index()).value,
    {
        let ghost ts = self.tokens();
        let ghost start = self.index();
        let ghost d0 = self.diagnostics();
        let mut derives: Vec<DeriveType> = Vec::new();
        if !self.peek_token_is(&Token::Dervive) {
            assert(self.diagnostics() =~= d0 + Seq::<ParseErrorView>::empty());
            assert(derives@ =~= Seq::<DeriveType>::empty());
            return derives;
        }
        self.next_token();
        if !self.expect_peek(Token::LParen) {
            assert(derives@ =~= Seq::<DeriveType>::empty());
            return derives;
        }
        self.next_token();
        let ghost i0 = self.index();
        let ghost whole = derives_loop(ts, i0);
        assert(d0 + whole.errors =~= self.diagnostics() + whole.errors);
        assert(whole.value =~= derives@ + whole.value);
        while !self.cur_token_is(&Token::RParen) && !self.cur_token_is(&Token::Eof)
            invariant
                self.wf(),
                self.tokens() == ts,
                self.index() >= i0,
                whole.value == derives@ + derives_loop(ts, self.index()).value,
                whole.used == (self.index() - i0) + derives_loop(ts, self.index()).used,
                d0 + whole.errors == self.diagnostics() + derives_loop(ts, self.index()).errors,
            decreases left(ts, self.index()),
        {
            let ghost i = self.index();
            let ghost before = derives@;
            match &self.cur_token {
                Token::Eq => {
                    derives.push(DeriveType::Eq);
                },
                Token::Ord => {
                    derives.push(DeriveType::Ord);
                },
                _ => {},
            }
            if self.peek_token_is(&Token::Comma) {
                self.next_token();
            }
            self.next_token();
            proof {
                let head = derive_spec(ts, i);
                let rest = derives_loop(ts, i + head.used + 1);
                assert(derives@ =~= before + head.value);
                assert(derives@ + rest.value =~= before + (head.value + rest.value));
                assert(head.errors + rest.errors =~= rest.errors);
            }
        }
        if !self.cur_token_is(&Token::RParen) {
            self.cur_error(Token::RParen);
        }
        assert(self.diagnostics() =~= d0 + whole.errors);
        assert(derives@ =~= whole.value);
        derives
    }

    /// Parses a declaration `name = ...`; the cursor is on the token of the name.
    fn build_block_statements(&mut self) -> (r: Option<Statement>)
        requires
            old(self).wf(),
        ensures
            final(self).follows(old(self), declaration_spec(old(self).tokens(), old(self).index())),
            optional_view(r) == declaration_spec(old(self).tokens(), old(self).index()).value,
    {
        let ghost d0 = self.diagnostics();
        let ident_tok = self.cur_token.clone();
        if !self.peek_token_is(&Token::Equal) {
            assert(self.diagnostics() =~= d0 + Seq::<ParseErrorView>::empty());
            return None;
        }
        self.next_token();
        self.next_token();
        match &self.cur_token {
            Token::Enum => {
                if self.expect_peek(Token::LBrace) {
                    Some(self.parse_enum_statement(ident_tok))
                } else {
                    None
                }
            },
            Token::Record => {
                if self.expect_peek(Token::LBrace) {
                    Some(self.parse_record_statement(ident_tok))
                } else {
                    None
                }
            },
            Token::Interface => {
                self.next_token();
                Some(self.parse_interface_statement(ident_tok))
            },
            _ => {
                assert(self.diagnostics() =~= d0 + Seq::<ParseErrorView>::empty());
                Some(Statement::new())
            },
        }
    }

    /// Parses an import; the cursor is on the `@`.
    fn parse_import_statement(&mut self) -> (r: Option<Statement>)
        requires
            old(self).wf(),
        ensures
            final(self).follows(old(self), import_spec(old(self).tokens(), old(self).index())),
            optional_view(r) == import_spec(old(self).tokens(), old(self).index()).value,
    {
        let ghost d0 = self.diagnostics();
        if !self.expect_peek(Token::Import) {
            return None;
        }
        let import_tok = self.cur_token.clone();
        match self.peek_token.clone() {
            Token::StringToken(path) => {
                self.next_token();
                assert(self.diagnostics() =~= d0 + Seq::<ParseErrorView>::empty());
                Some(Statement { stmtKind: StatementKind::Import(import_tok, path) })
            },
            _ => {
                self.peek_error(Token::StringToken(String::new()));
                None
            },
        }
    }

    /// Parses a top-level statement whose first token is under the cursor.
    fn parse_statement(&mut self) -> (r: Option<Statement>)
        requires
            old(self).wf(),
        ensures
            final(self).follows(old(self), statement_spec(old(self).tokens(), old(self).index())),
            optional_view(r) == statement_spec(old(self).tokens(), old(self).index()).value,
    {
        match &self.cur_token {
            Token::AtSign => self.parse_import_statement(),
            Token::Comment(_) => {
                assert(self.diagnostics() =~= self.diagnostics() + Seq::<ParseErrorView>::empty());
                Some(self.parse_comment_statement())
            },
            _ => self.build_block_statements(),
        }
    }

    /// Parses the rest of the text into a program.
    ///
    /// The program holds, in the order of the text, every top-level
    /// statement that parsed without an error. A statement with an error is
    /// left out, and its errors are added to `errors()`.
    pub fn parse_program(&mut self) -> (r: Option<Program>)
        requires
            old(self).wf(),
        ensures
            final(self).follows(old(self), program_spec(old(self).tokens(), old(self).index())),
            r matches Some(program) && program@ == program_spec(
                old(self).tokens(),
                old(self).index(),
            ).value,
    {
        let ghost ts = self.tokens();
        let ghost i0 = self.index();
        let ghost d0 = self.diagnostics();
        let ghost whole = program_spec(ts, i0);
        let mut statements: Vec<Statement> = Vec::new();
        assert(statements_view(statements@) =~= Seq::<StatementView>::empty());
        assert(d0 + whole.errors =~= self.diagnostics() + whole.errors);
        assert(whole.value =~= statements_view(statements@) + whole.value);
        while !self.cur_token_is(&Token::Eof)
            invariant
                self.wf(),
                self.tokens() == ts,
                self.index() >= i0,
                whole.value == statements_view(statements@) + program_spec(ts, self.index()).value,
                whole.used == (self.index() - i0) + program_spec(ts, self.index()).used,
                d0 + whole.errors == self.diagnostics() + program_spec(ts, self.index()).errors,
            decreases left(ts, self.index()),
        {
            let ghost i = self.index();
            let ghost before = statements_view(statements@);
            let ghost d = self.diagnostics();
            let seen = self.errors.len();
            assert(d.len() == seen);
            let stmt = self.parse_statement();
            proof {
                let found = statement_spec(ts, i).errors;
                assert(self.diagnostics().len() == self.errors.len());
                assert((d + found).len() == d.len() + found.len());
            }
            let ghost clean = self.errors.len() == seen;
            assert(clean <==> statement_spec(ts, i).errors.len() == 0);
            match stmt {
                Some(s) => {
                    if self.errors.len() == seen {
                        proof {
                            lemma_statements_view_push(statements@, s);
                        }
                        statements.push(s);
                    }
                },
                None => {},
            }
            self.next_token();
            proof {
                let head = top_level_spec(ts, i);
                let rest = program_spec(ts, i + head.used + 1);
                assert(statements_view(statements@) =~= before + head.value);
                assert(statements_view(statements@) + rest.value =~= before + (head.value
                    + rest.value));
                assert(self.diagnostics() + rest.errors =~= d + (head.errors + rest.errors));
            }
        }
        assert(self.diagnostics() =~= d0 + whole.errors);
        assert(statements_view(statements@) =~= whole.value);
        Some(Program { statements })
    }
}

/// Parses the text `contents` into a program, or gives its parse errors.
pub fn parse_text(contents: String) -> (r: Result<Program, Vec<ParseError>>)
    ensures
        match r {
            Ok(program) => program_spec(lex_spec(contents@), 0).errors.len() == 0 && program@
                == program_spec(lex_spec(contents@), 0).value,
            Err(errors) => errors_view(errors@).len() > 0 && errors_view(errors@) == program_spec(
                lex_spec(contents@),
                0,
            ).errors,
        },
{
    let lexer = Lexer::new(contents);
    let mut parser = Parser::new(lexer);
    let parsed = parser.parse_program();
    let ghost spec_errors = program_spec(lex_spec(contents@), 0).errors;
    assert(parser.diagnostics() =~= spec_errors);
    if parser.errors().len() > 0 {
        let errors = parser.errors().clone();
        assert(errors_view(errors@) =~= spec_errors);
        Err(errors)
    } else {
        match parsed {
            Some(program) => Ok(program),
            None => Ok(Program::new()),
        }
    }
}

} // verus!
