//! The syntax tree: statements, identifiers and type expressions, each with
//! its mathematical model and its canonical text.

use crate::parser::token::{DataType, DataTypeView, Token, TokenView};
use crate::text::share;
use std::sync::Arc;
use vstd::prelude::*;
use vstd::string::StringExecFns;

verus! {

/// A declared or referenced name: the token it came from and its text.
#[derive(PartialEq, Eq, Debug, Hash)]
pub struct Identifier {
    pub token: Token,
    pub value: String,
}

/// Model of an [`Identifier`].
pub ghost struct IdentifierView {
    pub token: TokenView,
    pub value: Seq<char>,
}

impl View for Identifier {
    type V = IdentifierView;

    open spec fn view(&self) -> IdentifierView {
        IdentifierView { token: self.token@, value: self.value@ }
    }
}

impl Clone for Identifier {
    fn clone(&self) -> (r: Identifier)
        ensures
            r == *self,
    {
        Identifier { token: self.token.clone(), value: self.value.clone() }
    }
}

/// What a record or an interface derives.
#[derive(PartialEq, Eq, Structural, Clone, Copy, Debug, Hash)]
pub enum DeriveType {
    Nothing,
    Ord,
    Eq,
}

pub open spec fn derive_text(d: DeriveType) -> Seq<char> {
    match d {
        DeriveType::Nothing => ""@,
        DeriveType::Ord => "ord"@,
        DeriveType::Eq => "eq"@,
    }
}

impl DeriveType {
    /// The word of this derive in a `deriving` clause.
    pub fn render(&self) -> (r: String)
        ensures
            r@ == derive_text(*self),
    {
        match self {
            DeriveType::Nothing => String::from_str(""),
            DeriveType::Ord => String::from_str("ord"),
            DeriveType::Eq => String::from_str("eq"),
        }
    }
}

/// Whether a function of an interface is static.
#[derive(PartialEq, Eq, Structural, Clone, Copy, Debug, Hash)]
pub enum FunctionModifier {
    Nothing,
    Static,
}

pub open spec fn modifier_text(m: FunctionModifier) -> Seq<char> {
    match m {
        FunctionModifier::Static => "static"@,
        FunctionModifier::Nothing => ""@,
    }
}

impl FunctionModifier {
    /// The word of this modifier; empty for none.
    pub fn render(&self) -> (r: String)
        ensures
            r@ == modifier_text(*self),
    {
        match self {
            FunctionModifier::Static => String::from_str("static"),
            FunctionModifier::Nothing => String::from_str(""),
        }
    }
}

/// A target language that an interface asks bindings for.
#[derive(PartialEq, Eq, Structural, Clone, Copy, Debug, Hash)]
pub enum InterfaceType {
    Java,
    ObjectiveC,
    Cpp,
}

pub open spec fn interface_type_text(t: InterfaceType) -> Seq<char> {
    match t {
        InterfaceType::Java => "+j"@,
        InterfaceType::ObjectiveC => "+o"@,
        InterfaceType::Cpp => "+c"@,
    }
}

impl InterfaceType {
    /// The tag of this target.
    pub fn render(&self) -> (r: String)
        ensures
            r@ == interface_type_text(*self),
    {
        match self {
            InterfaceType::Java => String::from_str("+j"),
            InterfaceType::ObjectiveC => String::from_str("+o"),
            InterfaceType::Cpp => String::from_str("+c"),
        }
    }
}

/// The types that every target language has of its own.
#[derive(PartialEq, Eq, Structural, Clone, Copy, Debug, Hash)]
#[allow(non_camel_case_types)]
pub enum PrimitiveTypes {
    string,
    i8,
    i16,
    i32,
    i64,
    float32,
    float64,
}

/// A type expression.
#[derive(PartialEq, Eq, Debug, Hash)]
pub enum DataTypeStatement {
    /// No type: a function that returns nothing, or a type that did not parse.
    Nothing,
    String,
    Integer8,
    Integer16,
    Integer32,
    Integer64,
    Float32,
    Float64,
    Binary,
    Date,
    Bool,
    SetOf(Arc<DataTypeStatement>),
    List(Arc<DataTypeStatement>),
    MapOf(Arc<DataTypeStatement>, Arc<DataTypeStatement>),
    /// A type that the user declared, by name.
    Object(Identifier),
}

/// Model of a [`DataTypeStatement`].
pub ghost enum DataTypeStatementView {
    Nothing,
    String,
    Integer8,
    Integer16,
    Integer32,
    Integer64,
    Float32,
    Float64,
    Binary,
    Date,
    Bool,
    SetOf(Box<DataTypeStatementView>),
    List(Box<DataTypeStatementView>),
    MapOf(Box<DataTypeStatementView>, Box<DataTypeStatementView>),
    Object(IdentifierView),
}

impl View for DataTypeStatement {
    type V = DataTypeStatementView;

    open spec fn view(&self) -> DataTypeStatementView
        decreases self,
    {
        match self {
            DataTypeStatement::Nothing => DataTypeStatementView::Nothing,
            DataTypeStatement::String => DataTypeStatementView::String,
            DataTypeStatement::Integer8 => DataTypeStatementView::Integer8,
            DataTypeStatement::Integer16 => DataTypeStatementView::Integer16,
            DataTypeStatement::Integer32 => DataTypeStatementView::Integer32,
            DataTypeStatement::Integer64 => DataTypeStatementView::Integer64,
            DataTypeStatement::Float32 => DataTypeStatementView::Float32,
            DataTypeStatement::Float64 => DataTypeStatementView::Float64,
            DataTypeStatement::Binary => DataTypeStatementView::Binary,
            DataTypeStatement::Date => DataTypeStatementView::Date,
            DataTypeStatement::Bool => DataTypeStatementView::Bool,
            DataTypeStatement::SetOf(t) => DataTypeStatementView::SetOf(Box::new((**t).view())),
            DataTypeStatement::List(t) => DataTypeStatementView::List(Box::new((**t).view())),
            DataTypeStatement::MapOf(k, v) => DataTypeStatementView::MapOf(
                Box::new((**k).view()),
                Box::new((**v).view()),
            ),
            DataTypeStatement::Object(i) => DataTypeStatementView::Object(i@),
        }
    }
}

impl Clone for DataTypeStatement {
    fn clone(&self) -> (r: DataTypeStatement)
        ensures
            r == *self,
    {
        match self {
            DataTypeStatement::Nothing => DataTypeStatement::Nothing,
            DataTypeStatement::String => DataTypeStatement::String,
            DataTypeStatement::Integer8 => DataTypeStatement::Integer8,
            DataTypeStatement::Integer16 => DataTypeStatement::Integer16,
            DataTypeStatement::Integer32 => DataTypeStatement::Integer32,
            DataTypeStatement::Integer64 => DataTypeStatement::Integer64,
            DataTypeStatement::Float32 => DataTypeStatement::Float32,
            DataTypeStatement::Float64 => DataTypeStatement::Float64,
            DataTypeStatement::Binary => DataTypeStatement::Binary,
            DataTypeStatement::Date => DataTypeStatement::Date,
            DataTypeStatement::Bool => DataTypeStatement::Bool,
            DataTypeStatement::SetOf(t) => DataTypeStatement::SetOf(share(t)),
            DataTypeStatement::List(t) => DataTypeStatement::List(share(t)),
            DataTypeStatement::MapOf(k, v) => DataTypeStatement::MapOf(share(k), share(v)),
            DataTypeStatement::Object(i) => DataTypeStatement::Object(i.clone()),
        }
    }
}

/// The type expression of a keyword's kind; a kind that needs arguments, or
/// that names no type, gives no type.
pub open spec fn type_of_kind(d: DataTypeView) -> DataTypeStatementView {
    match d {
        DataTypeView::Binary => DataTypeStatementView::Binary,
        DataTypeView::Bool => DataTypeStatementView::Bool,
        DataTypeView::Date => DataTypeStatementView::Date,
        DataTypeView::String => DataTypeStatementView::String,
        DataTypeView::Integer8 => DataTypeStatementView::Integer8,
        DataTypeView::Integer16 => DataTypeStatementView::Integer16,
        DataTypeView::Integer32 => DataTypeStatementView::Integer32,
        DataTypeView::Integer64 => DataTypeStatementView::Integer64,
        DataTypeView::Float32 => DataTypeStatementView::Float32,
        DataTypeView::Float64 => DataTypeStatementView::Float64,
        _ => DataTypeStatementView::Nothing,
    }
}

/// The head of a type expression: its keyword, or the name of the declared type.
pub open spec fn type_head(t: DataTypeStatementView) -> Seq<char> {
    match t {
        DataTypeStatementView::Nothing => "none"@,
        DataTypeStatementView::String => "string"@,
        DataTypeStatementView::Integer8 => "i8"@,
        DataTypeStatementView::Integer16 => "i16"@,
        DataTypeStatementView::Integer32 => "i32"@,
        DataTypeStatementView::Integer64 => "i64"@,
        DataTypeStatementView::Float32 => "f32"@,
        DataTypeStatementView::Float64 => "f64"@,
        DataTypeStatementView::Binary => "binary"@,
        DataTypeStatementView::Date => "date"@,
        DataTypeStatementView::Bool => "bool"@,
        DataTypeStatementView::SetOf(_) => "set"@,
        DataTypeStatementView::List(_) => "list"@,
        DataTypeStatementView::MapOf(_, _) => "map"@,
        DataTypeStatementView::Object(i) => i.value,
    }
}

/// The text of a type expression, as it is written in the language.
pub open spec fn type_text(t: DataTypeStatementView) -> Seq<char>
    decreases t,
{
    match t {
        DataTypeStatementView::SetOf(e) => "set<"@ + type_text(*e) + ">"@,
        DataTypeStatementView::List(e) => "list<"@ + type_text(*e) + ">"@,
        DataTypeStatementView::MapOf(k, v) => "map<"@ + type_text(*k) + ", "@ + type_text(*v)
            + ">"@,
        _ => type_head(t),
    }
}

impl DataTypeStatement {
    /// The type expression of a keyword's kind.
    pub fn from_data_type(dt: &DataType) -> (r: DataTypeStatement)
        ensures
            r@ == type_of_kind(dt@),
    {
        match dt {
            DataType::Binary => DataTypeStatement::Binary,
            DataType::Bool => DataTypeStatement::Bool,
            DataType::Date => DataTypeStatement::Date,
            DataType::String => DataTypeStatement::String,
            DataType::Integer8 => DataTypeStatement::Integer8,
            DataType::Integer16 => DataTypeStatement::Integer16,
            DataType::Integer32 => DataTypeStatement::Integer32,
            DataType::Integer64 => DataTypeStatement::Integer64,
            DataType::Float32 => DataTypeStatement::Float32,
            DataType::Float64 => DataTypeStatement::Float64,
            _ => DataTypeStatement::Nothing,
        }
    }

    /// The head of this type expression.
    pub fn get_name(&self) -> (r: String)
        ensures
            r@ == type_head(self@),
    {
        match self {
            DataTypeStatement::Nothing => String::from_str("none"),
            DataTypeStatement::String => String::from_str("string"),
            DataTypeStatement::Integer8 => String::from_str("i8"),
            DataTypeStatement::Integer16 => String::from_str("i16"),
            DataTypeStatement::Integer32 => String::from_str("i32"),
            DataTypeStatement::Integer64 => String::from_str("i64"),
            DataTypeStatement::Float32 => String::from_str("f32"),
            DataTypeStatement::Float64 => String::from_str("f64"),
            DataTypeStatement::Binary => String::from_str("binary"),
            DataTypeStatement::Date => String::from_str("date"),
            DataTypeStatement::Bool => String::from_str("bool"),
            DataTypeStatement::SetOf(_) => String::from_str("set"),
            DataTypeStatement::List(_) => String::from_str("list"),
            DataTypeStatement::MapOf(_, _) => String::from_str("map"),
            DataTypeStatement::Object(i) => i.value.clone(),
        }
    }

    /// The text of this type expression.
    pub fn render(&self) -> (r: String)
        ensures
            r@ == type_text(self@),
        decreases self,
    {
        match self {
            DataTypeStatement::SetOf(e) => {
                let inner = (**e).render();
                String::from_str("set<").concat(inner.as_str()).concat(">")
            },
            DataTypeStatement::List(e) => {
                let inner = (**e).render();
                String::from_str("list<").concat(inner.as_str()).concat(">")
            },
            DataTypeStatement::MapOf(k, v) => {
                let key = (**k).render();
                let value = (**v).render();
                String::from_str("map<").concat(key.as_str()).concat(", ").concat(
                    value.as_str(),
                ).concat(">")
            },
            _ => self.get_name(),
        }
    }
}

/// A parameter of a function: its name and its type.
#[derive(PartialEq, Eq, Debug, Hash)]
pub struct Parameter {
    pub ident: Identifier,
    pub data_type: DataTypeStatement,
}

/// Model of a [`Parameter`].
pub ghost struct ParameterView {
    pub ident: IdentifierView,
    pub data_type: DataTypeStatementView,
}

impl View for Parameter {
    type V = ParameterView;

    open spec fn view(&self) -> ParameterView {
        ParameterView { ident: self.ident@, data_type: self.data_type@ }
    }
}

impl Clone for Parameter {
    fn clone(&self) -> (r: Parameter)
        ensures
            r == *self,
    {
        Parameter { ident: self.ident.clone(), data_type: self.data_type.clone() }
    }
}

/// The models of the parameters in `v`.
pub open spec fn parameters_view(v: Seq<Parameter>) -> Seq<ParameterView> {
    Seq::new(v.len(), |i: int| v[i]@)
}

pub open spec fn parameter_text(p: ParameterView) -> Seq<char> {
    "("@ + p.ident.value + ": "@ + type_text(p.data_type) + ")"@
}

/// The texts of the parameters, with `, ` between them.
pub open spec fn parameters_text(v: Seq<ParameterView>) -> Seq<char>
    decreases v.len(),
{
    if v.len() == 0 {
        Seq::empty()
    } else if v.len() == 1 {
        parameter_text(v[0])
    } else {
        parameters_text(v.drop_last()) + ", "@ + parameter_text(v.last())
    }
}

/// The tags of the targets, with a space between them.
pub open spec fn interface_types_text(v: Seq<InterfaceType>) -> Seq<char>
    decreases v.len(),
{
    if v.len() == 0 {
        Seq::empty()
    } else if v.len() == 1 {
        interface_type_text(v[0])
    } else {
        interface_types_text(v.drop_last()) + " "@ + interface_type_text(v.last())
    }
}

impl Parameter {
    /// The text of this parameter: `(name: type)`.
    pub fn render(&self) -> (r: String)
        ensures
            r@ == parameter_text(self@),
    {
        let ty = self.data_type.render();
        String::from_str("(").concat(self.ident.value.as_str()).concat(": ").concat(
            ty.as_str(),
        ).concat(")")
    }
}

/// A statement of the language.
#[derive(PartialEq, Eq, Debug, Hash)]
#[allow(non_snake_case)]
pub struct Statement {
    pub stmtKind: StatementKind,
}

/// The kinds of statements.
#[derive(PartialEq, Eq, Debug, Hash)]
pub enum StatementKind {
    Noop,
    Import(Token, String),
    Interface(Token, Identifier, Vec<InterfaceType>, BlockStatement, Vec<DeriveType>),
    Record(Token, Identifier, BlockStatement, Vec<DeriveType>),
    Enum(Token, Identifier, BlockStatement),
    EnumMember(Token, Identifier),
    RecordMember(Token, Identifier, DataTypeStatement),
    Comment(Token, String),
    StringLiteral(Token, String),
    NumberLiteral(Token, String),
    Boolean(Token, bool),
    Block(BlockStatement),
    Const(Token, Identifier, DataTypeStatement, Arc<Statement>),
    Definition(Identifier, Arc<Statement>),
    Ident(Token, String),
    Function(Token, FunctionModifier, Identifier, Vec<Parameter>, DataTypeStatement),
}

/// Statements in the order in which they were written.
#[derive(PartialEq, Eq, Debug, Hash)]
pub struct BlockStatement {
    pub token: Token,
    pub statements: Vec<Statement>,
}

/// Model of a [`Statement`] and of a [`StatementKind`].
pub ghost enum StatementView {
    Noop,
    Import(TokenView, Seq<char>),
    Interface(TokenView, IdentifierView, Seq<InterfaceType>, BlockView, Seq<DeriveType>),
    Record(TokenView, IdentifierView, BlockView, Seq<DeriveType>),
    Enum(TokenView, IdentifierView, BlockView),
    EnumMember(TokenView, IdentifierView),
    RecordMember(TokenView, IdentifierView, DataTypeStatementView),
    Comment(TokenView, Seq<char>),
    StringLiteral(TokenView, Seq<char>),
    NumberLiteral(TokenView, Seq<char>),
    Boolean(TokenView, bool),
    Block(BlockView),
    Const(TokenView, IdentifierView, DataTypeStatementView, Box<StatementView>),
    Definition(IdentifierView, Box<StatementView>),
    Ident(TokenView, Seq<char>),
    Function(TokenView, FunctionModifier, IdentifierView, Seq<ParameterView>,
        DataTypeStatementView),
}

/// Model of a [`BlockStatement`].
pub ghost struct BlockView {
    pub token: TokenView,
    pub statements: Seq<StatementView>,
}

/// The model of a statement.
pub open spec fn statement_view(s: Statement) -> StatementView
    decreases s,
{
    kind_view(s.stmtKind)
}

/// The model of a statement kind.
pub open spec fn kind_view(k: StatementKind) -> StatementView
    decreases k,
{
    match k {
        StatementKind::Noop => StatementView::Noop,
        StatementKind::Import(t, s) => StatementView::Import(t@, s@),
        StatementKind::Interface(t, i, p, b, d) => StatementView::Interface(
            t@,
            i@,
            p@,
            block_view(b),
            d@,
        ),
        StatementKind::Record(t, i, b, d) => StatementView::Record(t@, i@, block_view(b), d@),
        StatementKind::Enum(t, i, b) => StatementView::Enum(t@, i@, block_view(b)),
        StatementKind::EnumMember(t, i) => StatementView::EnumMember(t@, i@),
        StatementKind::RecordMember(t, i, d) => StatementView::RecordMember(t@, i@, d@),
        StatementKind::Comment(t, s) => StatementView::Comment(t@, s@),
        StatementKind::StringLiteral(t, s) => StatementView::StringLiteral(t@, s@),
        StatementKind::NumberLiteral(t, s) => StatementView::NumberLiteral(t@, s@),
        StatementKind::Boolean(t, b) => StatementView::Boolean(t@, b),
        StatementKind::Block(b) => StatementView::Block(block_view(b)),
        StatementKind::Const(t, i, d, v) => StatementView::Const(
            t@,
            i@,
            d@,
            Box::new(statement_view(*v)),
        ),
        StatementKind::Definition(i, v) => StatementView::Definition(
            i@,
            Box::new(statement_view(*v)),
        ),
        StatementKind::Ident(t, s) => StatementView::Ident(t@, s@),
        StatementKind::Function(t, m, i, p, r) => StatementView::Function(
            t@,
            m,
            i@,
            parameters_view(p@),
            r@,
        ),
    }
}

/// The model of a block.
pub open spec fn block_view(b: BlockStatement) -> BlockView
    decreases b,
{
    BlockView { token: b.token@, statements: statements_view(b.statements@) }
}

/// The models of the statements in `v`, in the same order.
pub open spec fn statements_view(v: Seq<Statement>) -> Seq<StatementView>
    decreases v,
{
    Seq::new(
        v.len(),
        |i: int|
            if 0 <= i < v.len() {
                statement_view(v[i])
            } else {
                StatementView::Noop
            },
    )
}

/// The model of a statement that may be missing.
pub open spec fn optional_view(o: Option<Statement>) -> Option<StatementView> {
    match o {
        Some(s) => Some(statement_view(s)),
        None => None,
    }
}

/// Adding a statement to a vector adds its model to the models.
pub proof fn lemma_statements_view_push(v: Seq<Statement>, s: Statement)
    ensures
        statements_view(v.push(s)) == statements_view(v).push(statement_view(s)),
        statements_view(v.push(s)) == statements_view(v) + seq![statement_view(s)],
{
    assert(statements_view(v.push(s)) =~= statements_view(v).push(statement_view(s)));
    assert(statements_view(v.push(s)) =~= statements_view(v) + seq![statement_view(s)]);
}

impl View for Statement {
    type V = StatementView;

    open spec fn view(&self) -> StatementView {
        statement_view(*self)
    }
}

impl View for StatementKind {
    type V = StatementView;

    open spec fn view(&self) -> StatementView {
        kind_view(*self)
    }
}

impl View for BlockStatement {
    type V = BlockView;

    open spec fn view(&self) -> BlockView {
        block_view(*self)
    }
}

/// The canonical text of a statement.
pub open spec fn statement_text(s: StatementView) -> Seq<char>
    decreases s,
{
    match s {
        StatementView::Noop => "noop"@,
        StatementView::Import(_, path) => "@import "@ + path,
        StatementView::Interface(_, i, targets, b, _) => i.value + " = interface "@
            + interface_types_text(targets) + " {"@ + block_text(b.statements) + "}"@,
        StatementView::Record(_, i, b, _) => i.value + " = record {"@ + block_text(b.statements)
            + "}"@,
        StatementView::Enum(_, i, b) => i.value + " = enum {\n"@ + "\t"@ + block_text(
            b.statements,
        ) + "\n"@ + "}"@,
        StatementView::EnumMember(_, i) => i.value + ";"@,
        StatementView::RecordMember(_, i, d) => i.value + ": "@ + type_text(d) + ";"@,
        StatementView::Function(_, m, i, p, r) => modifier_text(m) + " "@ + i.value + "("@
            + parameters_text(p) + "): "@ + type_text(r) + ";"@,
        StatementView::Const(_, i, d, v) => "const "@ + i.value + ": "@ + type_text(d) + " = "@
            + statement_text(*v) + ";"@,
        StatementView::Comment(_, text) => "#"@ + text,
        StatementView::Boolean(_, b) => if b {
            "true"@
        } else {
            "false"@
        },
        StatementView::NumberLiteral(_, text) => text,
        StatementView::StringLiteral(_, text) => "\""@ + text + "\""@,
        StatementView::Ident(_, text) => text,
        StatementView::Definition(i, v) => i.value + " = "@ + statement_text(*v) + ","@,
        StatementView::Block(b) => "{ "@ + block_text(b.statements) + " }"@,
    }
}

/// The canonical texts of the statements, one after the other.
pub open spec fn block_text(v: Seq<StatementView>) -> Seq<char>
    decreases v,
{
    if v.len() == 0 {
        Seq::empty()
    } else {
        block_text(v.drop_last()) + statement_text(v.last())
    }
}

impl Clone for Statement {
    fn clone(&self) -> (r: Statement)
        ensures
            r@ == self@,
        decreases self,
    {
        Statement { stmtKind: self.stmtKind.clone() }
    }
}

impl Clone for BlockStatement {
    fn clone(&self) -> (r: BlockStatement)
        ensures
            r@ == self@,
        decreases self,
    {
        let mut statements: Vec<Statement> = Vec::new();
        let mut i: usize = 0;
        while i < self.statements.len()
            invariant
                i <= self.statements.len(),
                statements.len() == i,
                statements_view(statements@) == statements_view(self.statements@).take(i as int),
            decreases self.statements.len() - i,
        {
            let ghost before = statements@;
            statements.push(self.statements[i].clone());
            assert(statements_view(statements@) =~= statements_view(self.statements@).take(
                i + 1,
            )) by {
                assert(statements_view(before) =~= statements_view(self.statements@).take(
                    i as int,
                ));
                assert forall|k: int| 0 <= k < i implies statement_view(statements@[k])
                    == statement_view(self.statements@[k]) by {
                    assert(statements_view(before)[k] == statements_view(self.statements@).take(
                        i as int,
                    )[k]);
                }
            }
            i += 1;
        }
        assert(statements_view(self.statements@).take(i as int) =~= statements_view(
            self.statements@,
        ));
        BlockStatement { token: self.token.clone(), statements }
    }
}

impl Clone for StatementKind {
    fn clone(&self) -> (r: StatementKind)
        ensures
            r@ == self@,
        decreases self,
    {
        match self {
            StatementKind::Noop => StatementKind::Noop,
            StatementKind::Import(t, s) => StatementKind::Import(t.clone(), s.clone()),
            StatementKind::Interface(t, i, p, b, d) => {
                let targets = p.clone();
                let derives = d.clone();
                assert(targets@ =~= p@);
                assert(derives@ =~= d@);
                StatementKind::Interface(t.clone(), i.clone(), targets, b.clone(), derives)
            },
            StatementKind::Record(t, i, b, d) => {
                let derives = d.clone();
                assert(derives@ =~= d@);
                StatementKind::Record(t.clone(), i.clone(), b.clone(), derives)
            },
            StatementKind::Enum(t, i, b) => StatementKind::Enum(t.clone(), i.clone(), b.clone()),
            StatementKind::EnumMember(t, i) => StatementKind::EnumMember(t.clone(), i.clone()),
            StatementKind::RecordMember(t, i, d) => StatementKind::RecordMember(
                t.clone(),
                i.clone(),
                d.clone(),
            ),
            StatementKind::Comment(t, s) => StatementKind::Comment(t.clone(), s.clone()),
            StatementKind::StringLiteral(t, s) => StatementKind::StringLiteral(
                t.clone(),
                s.clone(),
            ),
            StatementKind::NumberLiteral(t, s) => StatementKind::NumberLiteral(
                t.clone(),
                s.clone(),
            ),
            StatementKind::Boolean(t, b) => StatementKind::Boolean(t.clone(), *b),
            StatementKind::Block(b) => StatementKind::Block(b.clone()),
            StatementKind::Const(t, i, d, v) => StatementKind::Const(
                t.clone(),
                i.clone(),
                d.clone(),
                share(v),
            ),
            StatementKind::Definition(i, v) => StatementKind::Definition(i.clone(), share(v)),
            StatementKind::Ident(t, s) => StatementKind::Ident(t.clone(), s.clone()),
            StatementKind::Function(t, m, i, p, r) => {
                let params = p.clone();
                assert(params@ =~= p@);
                StatementKind::Function(t.clone(), *m, i.clone(), params, r.clone())
            },
        }
    }
}

impl Statement {
    /// The empty statement.
    pub fn new() -> (r: Statement)
        ensures
            r@ == StatementView::Noop,
    {
        Statement { stmtKind: StatementKind::Noop }
    }

    /// The canonical text of this statement.
    pub fn render(&self) -> (r: String)
        ensures
            r@ == statement_text(self@),
        decreases self,
    {
        self.stmtKind.render()
    }
}

impl BlockStatement {
    /// The canonical texts of the statements of this block, one after the other.
    pub fn render(&self) -> (r: String)
        ensures
            r@ == block_text(self@.statements),
        decreases self,
    {
        let mut out = String::new();
        let mut i: usize = 0;
        while i < self.statements.len()
            invariant
                i <= self.statements.len(),
                out@ == block_text(self@.statements.take(i as int)),
            decreases self.statements.len() - i,
        {
            let text = self.statements[i].render();
            out.append(text.as_str());
            proof {
                let all = self@.statements;
                assert(all.take(i + 1).drop_last() =~= all.take(i as int));
                assert(all.take(i + 1).last() == self.statements[i as int]@);
            }
            i += 1;
        }
        assert(self@.statements.take(i as int) =~= self@.statements);
        out
    }
}

impl StatementKind {
    /// The canonical text of a statement of this kind.
    pub fn render(&self) -> (r: String)
        ensures
            r@ == statement_text(self@),
        decreases self,
    {
        match self {
            StatementKind::Noop => String::from_str("noop"),
            StatementKind::Import(_, path) => String::from_str("@import ").concat(path.as_str()),
            StatementKind::Interface(_, i, targets, b, _) => {
                let mut tags = String::new();
                let mut k: usize = 0;
                while k < targets.len()
                    invariant
                        k <= targets.len(),
                        tags@ == interface_types_text(targets@.take(k as int)),
                    decreases targets.len() - k,
                {
                    if k > 0 {
                        tags.append(" ");
                    }
                    let tag = targets[k].render();
                    tags.append(tag.as_str());
                    proof {
                        assert(targets@.take(k + 1).drop_last() =~= targets@.take(k as int));
                    }
                    k += 1;
                }
                assert(targets@.take(k as int) =~= targets@);
                let body = b.render();
                i.value.clone().concat(" = interface ").concat(tags.as_str()).concat(" {").concat(
                    body.as_str(),
                ).concat("}")
            },
            StatementKind::Record(_, i, b, _) => {
                let body = b.render();
                i.value.clone().concat(" = record {").concat(body.as_str()).concat("}")
            },
            StatementKind::Enum(_, i, b) => {
                let body = b.render();
                i.value.clone().concat(" = enum {\n").concat("\t").concat(body.as_str()).concat(
                    "\n",
                ).concat("}")
            },
            StatementKind::EnumMember(_, i) => i.value.clone().concat(";"),
            StatementKind::RecordMember(_, i, d) => {
                let ty = d.render();
                i.value.clone().concat(": ").concat(ty.as_str()).concat(";")
            },
            StatementKind::Function(_, m, i, p, r) => {
                let mut params = String::new();
                let mut k: usize = 0;
                while k < p.len()
                    invariant
                        k <= p.len(),
                        params@ == parameters_text(parameters_view(p@).take(k as int)),
                    decreases p.len() - k,
                {
                    if k > 0 {
                        params.append(", ");
                    }
                    let one = p[k].render();
                    params.append(one.as_str());
                    proof {
                        let all = parameters_view(p@);
                        assert(all.take(k + 1).drop_last() =~= all.take(k as int));
                    }
                    k += 1;
                }
                assert(parameters_view(p@).take(k as int) =~= parameters_view(p@));
                let modifier = m.render();
                let ret = r.render();
                modifier.concat(" ").concat(i.value.as_str()).concat("(").concat(
                    params.as_str(),
                ).concat("): ").concat(ret.as_str()).concat(";")
            },
            StatementKind::Const(_, i, d, v) => {
                let ty = d.render();
                let value = (**v).render();
                String::from_str("const ").concat(i.value.as_str()).concat(": ").concat(
                    ty.as_str(),
                ).concat(" = ").concat(value.as_str()).concat(";")
            },
            StatementKind::Comment(_, text) => String::from_str("#").concat(text.as_str()),
            StatementKind::Boolean(_, b) => if *b {
                String::from_str("true")
            } else {
                String::from_str("false")
            },
            StatementKind::NumberLiteral(_, text) => text.clone(),
            StatementKind::StringLiteral(_, text) => String::from_str("\"").concat(
                text.as_str(),
            ).concat("\""),
            StatementKind::Ident(_, text) => text.clone(),
            StatementKind::Definition(i, v) => {
                let value = (**v).render();
                i.value.clone().concat(" = ").concat(value.as_str()).concat(",")
            },
            StatementKind::Block(b) => {
                let body = b.render();
                String::from_str("{ ").concat(body.as_str()).concat(" }")
            },
        }
    }
}

} // verus!
