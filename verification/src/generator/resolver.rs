//! The resolver: checks that no name is declared twice in its scope and
//! registers the declared types.

use crate::generator::typer::{
    builtin_types, DuplicateChecker, TypeDefinitionKind,
    TypeDefinitionKindView, Typer,
};
use crate::parser::ast::{BlockStatement, Statement, StatementKind, StatementView};
use crate::parser::program::Program;
use vstd::prelude::*;
use vstd::string::StringExecFns;

verus! {

/// What can go wrong while resolving.
#[derive(Debug)]
pub enum ResolveError {
    Resolve(String),
    /// A name that is declared twice: the label of the scope, and the name.
    Duplicate(String, String),
    ExpectedEnumOption,
}

/// Model of a [`ResolveError`].
pub ghost enum ResolveErrorView {
    Resolve(Seq<char>),
    Duplicate(Seq<char>, Seq<char>),
    ExpectedEnumOption,
}

impl View for ResolveError {
    type V = ResolveErrorView;

    open spec fn view(&self) -> ResolveErrorView {
        match *self {
            ResolveError::Resolve(s) => ResolveErrorView::Resolve(s@),
            ResolveError::Duplicate(scope, message) => ResolveErrorView::Duplicate(
                scope@,
                message@,
            ),
            ResolveError::ExpectedEnumOption => ResolveErrorView::ExpectedEnumOption,
        }
    }
}

/// What an error says to the user.
pub open spec fn error_message(e: ResolveErrorView) -> Seq<char> {
    match e {
        ResolveErrorView::Resolve(text) => text,
        ResolveErrorView::Duplicate(_, name) => "Type already defined: "@ + name,
        ResolveErrorView::ExpectedEnumOption => "Expected an enum option"@,
    }
}

impl ResolveError {
    /// What this error says to the user.
    pub fn message(&self) -> (r: String)
        ensures
            r@ == error_message(self@),
    {
        match self {
            ResolveError::Resolve(text) => text.clone(),
            ResolveError::Duplicate(_, name) => String::from_str("Type already defined: ").concat(
                name.as_str(),
            ),
            ResolveError::ExpectedEnumOption => String::from_str("Expected an enum option"),
        }
    }
}

/// The name that a top-level statement declares: that of an enum, a record
/// or an interface. Any other statement declares none.
pub open spec fn declaration_name(s: StatementView) -> Option<Seq<char>> {
    match s {
        StatementView::Enum(_, i, _) => Some(i.value),
        StatementView::Record(_, i, _, _) => Some(i.value),
        StatementView::Interface(_, i, _, _, _) => Some(i.value),
        _ => None,
    }
}

/// The label of the scope that a declaration opens for its members.
pub open spec fn scope_label(s: StatementView) -> Seq<char> {
    match s {
        StatementView::Enum(_, _, _) => "Enum"@,
        StatementView::Record(_, _, _, _) => "Record"@,
        StatementView::Interface(_, _, _, _, _) => "Interface"@,
        _ => Seq::empty(),
    }
}

/// The statements in the body of a declaration.
pub open spec fn body_of(s: StatementView) -> Seq<StatementView> {
    match s {
        StatementView::Enum(_, _, b) => b.statements,
        StatementView::Record(_, _, b, _) => b.statements,
        StatementView::Interface(_, _, _, b, _) => b.statements,
        _ => Seq::empty(),
    }
}

/// The name that `m` declares as a member of `owner`: an enum's option, a
/// record's field, an interface's function. Any other statement in a body
/// declares none.
pub open spec fn member_name(owner: StatementView, m: StatementView) -> Option<Seq<char>> {
    match (owner, m) {
        (StatementView::Enum(_, _, _), StatementView::EnumMember(_, i)) => Some(i.value),
        (StatementView::Record(_, _, _, _), StatementView::RecordMember(_, i, _)) => Some(i.value),
        (StatementView::Interface(_, _, _, _, _), StatementView::Function(_, _, i, _, _)) => Some(
            i.value,
        ),
        _ => None,
    }
}

/// The first member name from index `k` on that is in `seen` or stands
/// earlier from `k` on, if there is one.
pub open spec fn first_repeated(
    owner: StatementView,
    body: Seq<StatementView>,
    seen: Set<Seq<char>>,
    k: int,
) -> Option<Seq<char>>
    decreases body.len() - k,
{
    if !(0 <= k < body.len()) {
        None
    } else {
        match member_name(owner, body[k]) {
            Some(name) => if seen.contains(name) {
                Some(name)
            } else {
                first_repeated(owner, body, seen.insert(name), k + 1)
            },
            None => first_repeated(owner, body, seen, k + 1),
        }
    }
}

/// The state of a resolve pass: the top-level names seen, the registry, and
/// the error that ended the pass, if one did.
pub ghost struct Resolution {
    pub seen: Set<Seq<char>>,
    pub types: Map<Seq<char>, TypeDefinitionKindView>,
    pub error: Option<ResolveErrorView>,
}

/// The error for the name `name` declared twice in the scope `scope`.
pub open spec fn duplicate(scope: Seq<char>, name: Seq<char>) -> ResolveErrorView {
    ResolveErrorView::Duplicate(scope, name)
}

/// Resolving one top-level statement.
///
/// A statement that declares no name changes nothing. A name that was seen
/// at the top level is an error of the scope `Top Level`, and nothing is
/// registered. Else the name is registered as a user-declared type, and the
/// first member name that stands twice in the body is an error of the
/// declaration's own scope.
pub open spec fn resolve_statement_spec(st: Resolution, s: StatementView) -> Resolution {
    match declaration_name(s) {
        None => st,
        Some(name) => if st.seen.contains(name) {
            Resolution { seen: st.seen, types: st.types, error: Some(duplicate("Top Level"@,
                name)) }
        } else {
            Resolution {
                seen: st.seen.insert(name),
                types: st.types.insert(name, TypeDefinitionKindView::UserObject(name)),
                error: match first_repeated(s, body_of(s), Set::empty(), 0) {
                    Some(member) => Some(duplicate(scope_label(s), member)),
                    None => None,
                },
            }
        }
    }
}

/// Resolving the statements from index `k` on, up to the first error.
pub open spec fn resolve_from(st: Resolution, program: Seq<StatementView>, k: int) -> Resolution
    decreases program.len() - k,
{
    if !(0 <= k < program.len()) || st.error is Some {
        st
    } else {
        resolve_from(resolve_statement_spec(st, program[k]), program, k + 1)
    }
}

/// Resolving a program with the registry `types`: the registry with the
/// declared types added, up to the statement with the first error, and that error.
pub open spec fn resolve_spec(
    types: Map<Seq<char>, TypeDefinitionKindView>,
    program: Seq<StatementView>,
) -> Resolution {
    resolve_from(Resolution { seen: Set::empty(), types, error: None }, program, 0)
}

/// Whether `r` is the outcome that `error` stands for.
pub open spec fn is_outcome(r: Result<(), ResolveError>, error: Option<ResolveErrorView>) -> bool {
    match r {
        Ok(_) => error is None,
        Err(e) => error == Some(e@),
    }
}

/// Checks declared names and registers declared types.
pub struct Resolver {
    typer: Typer,
}

impl Resolver {
    /// The registry as it stands.
    pub closed spec fn types(&self) -> Map<Seq<char>, TypeDefinitionKindView> {
        self.typer@
    }

    /// A resolver with the registry of the built-in types.
    pub fn new() -> (r: Resolver)
        ensures
            r.types() == builtin_types(),
    {
        Resolver { typer: Typer::new() }
    }

    /// A resolver that adds to the registry `typer`.
    pub fn with_typer(typer: Typer) -> (r: Resolver)
        ensures
            r.types() == typer@,
    {
        Resolver { typer }
    }

    /// The registry, to read.
    pub fn typer(&self) -> (t: &Typer)
        ensures
            t@ == self.types(),
    {
        &self.typer
    }

    /// Resolves `program`: fails with the first name that is declared twice
    /// in its scope, and registers the types declared up to there.
    pub fn resolve(&mut self, program: &Program) -> (r: Result<(), ResolveError>)
        ensures
            final(self).types() == resolve_spec(old(self).types(), program@).types,
            is_outcome(r, resolve_spec(old(self).types(), program@).error),
    {
        let mut dup_checker = DuplicateChecker::new(String::from_str("Top Level"));
        let ghost whole = resolve_spec(self.types(), program@);
        let mut k: usize = 0;
        while k < program.statements.len()
            invariant
                k <= program.statements.len(),
                dup_checker.scope() == "Top Level"@,
                whole == resolve_spec(old(self).types(), program@),
                whole == resolve_from(
                    Resolution { seen: dup_checker.seen(), types: self.types(), error: None },
                    program@,
                    k as int,
                ),
            decreases program.statements.len() - k,
        {
            let ghost st = Resolution {
                seen: dup_checker.seen(),
                types: self.types(),
                error: None,
            };
            assert(program@[k as int] == program.statements[k as int]@);
            match self.resolve_statement(&program.statements[k], &mut dup_checker) {
                Ok(_) => {},
                Err(e) => {
                    let ghost out = resolve_statement_spec(st, program@[k as int]);
                    assert(resolve_from(out, program@, k + 1) == out);
                    return Err(e);
                },
            }
            k += 1;
        }
        Ok(())
    }

    fn resolve_statement(&mut self, stmt: &Statement, dup_checker: &mut DuplicateChecker) -> (r:
        Result<(), ResolveError>)
        requires
            old(dup_checker).scope() == "Top Level"@,
        ensures
            final(dup_checker).scope() == "Top Level"@,
            ({
                let out = resolve_statement_spec(
                    Resolution {
                        seen: old(dup_checker).seen(),
                        types: old(self).types(),
                        error: None,
                    },
                    stmt@,
                );
                &&& final(dup_checker).seen() == out.seen
                &&& final(self).types() == out.types
                &&& is_outcome(r, out.error)
            }),
    {
        match &stmt.stmtKind {
            StatementKind::Enum(_, i, _) => {
                match dup_checker.check(&i.value) {
                    Ok(_) => {},
                    Err(e) => {
                        return Err(e);
                    },
                }
                self.resolve_enum(stmt)
            },
            StatementKind::Record(_, i, _, _) => {
                match dup_checker.check(&i.value) {
                    Ok(_) => {},
                    Err(e) => {
                        return Err(e);
                    },
                }
                self.resolve_record(stmt)
            },
            StatementKind::Interface(_, i, _, _, _) => {
                match dup_checker.check(&i.value) {
                    Ok(_) => {},
                    Err(e) => {
                        return Err(e);
                    },
                }
                self.resolve_interface(stmt)
            },
            _ => Ok(()),
        }
    }

    /// The name that `m` declares as a member of a declaration of kind `owner`.
    fn member_name<'a>(owner: &StatementKind, m: &'a Statement) -> (r: Option<&'a String>)
        ensures
            match r {
                Some(name) => member_name(owner@, m@) == Some(name@),
                None => member_name(owner@, m@) is None,
            },
    {
        match (owner, &m.stmtKind) {
            (StatementKind::Enum(_, _, _), StatementKind::EnumMember(_, i)) => Some(&i.value),
            (StatementKind::Record(_, _, _, _), StatementKind::RecordMember(_, i, _)) => Some(
                &i.value,
            ),
            (StatementKind::Interface(_, _, _, _, _), StatementKind::Function(_, _, i, _, _)) => {
                Some(&i.value)
            },
            _ => None,
        }
    }

    /// Checks the member names of the body `block` of the declaration `stmt`
    /// in a scope of their own, labelled `label`.
    fn resolve_members(stmt: &Statement, block: &BlockStatement, label: &str) -> (r: Result<
        (),
        ResolveError,
    >)
        requires
            body_of(stmt@) == block@.statements,
            scope_label(stmt@) == label@,
        ensures
            is_outcome(
                r,
                match first_repeated(stmt@, body_of(stmt@), Set::empty(), 0) {
                    Some(member) => Some(duplicate(scope_label(stmt@), member)),
                    None => None,
                },
            ),
    {
        let mut dup_checker = DuplicateChecker::new(String::from_str(label));
        let ghost body = body_of(stmt@);
        let ghost whole = first_repeated(stmt@, body, Set::empty(), 0);
        let mut k: usize = 0;
        while k < block.statements.len()
            invariant
                k <= block.statements.len(),
                body == block@.statements,
                body == body_of(stmt@),
                body.len() == block.statements.len(),
                dup_checker.scope() == label@,
                scope_label(stmt@) == label@,
                whole == first_repeated(stmt@, body, Set::empty(), 0),
                whole == first_repeated(stmt@, body, dup_checker.seen(), k as int),
            decreases block.statements.len() - k,
        {
            assert(body[k as int] == block.statements[k as int]@);
            match Resolver::member_name(&stmt.stmtKind, &block.statements[k]) {
                Some(name) => {
                    match dup_checker.check(name) {
                        Ok(_) => {},
                        Err(e) => {
                            return Err(e);
                        },
                    }
                },
                None => {},
            }
            k += 1;
        }
        Ok(())
    }

    fn resolve_enum(&mut self, stmt: &Statement) -> (r: Result<(), ResolveError>)
        requires
            stmt@ is Enum,
        ensures
            final(self).types() == old(self).types().insert(
                declaration_name(stmt@)->0,
                TypeDefinitionKindView::UserObject(declaration_name(stmt@)->0),
            ),
            is_outcome(
                r,
                match first_repeated(stmt@, body_of(stmt@), Set::empty(), 0) {
                    Some(member) => Some(duplicate(scope_label(stmt@), member)),
                    None => None,
                },
            ),
    {
        match &stmt.stmtKind {
            StatementKind::Enum(_, id, b) => {
                let _ = self.typer.insert_type(
                    &id.value,
                    TypeDefinitionKind::UserObject(id.value.clone()),
                );
                Resolver::resolve_members(stmt, b, "Enum")
            },
            _ => Ok(()),
        }
    }

    fn resolve_record(&mut self, stmt: &Statement) -> (r: Result<(), ResolveError>)
        requires
            stmt@ is Record,
        ensures
            final(self).types() == old(self).types().insert(
                declaration_name(stmt@)->0,
                TypeDefinitionKindView::UserObject(declaration_name(stmt@)->0),
            ),
            is_outcome(
                r,
                match first_repeated(stmt@, body_of(stmt@), Set::empty(), 0) {
                    Some(member) => Some(duplicate(scope_label(stmt@), member)),
                    None => None,
                },
            ),
    {
        match &stmt.stmtKind {
            StatementKind::Record(_, id, b, _) => {
                let _ = self.typer.insert_type(
                    &id.value,
                    TypeDefinitionKind::UserObject(id.value.clone()),
                );
                Resolver::resolve_members(stmt, b, "Record")
            },
            _ => Ok(()),
        }
    }

    fn resolve_interface(&mut self, stmt: &Statement) -> (r: Result<(), ResolveError>)
        requires
            stmt@ is Interface,
        ensures
            final(self).types() == old(self).types().insert(
                declaration_name(stmt@)->0,
                TypeDefinitionKindView::UserObject(declaration_name(stmt@)->0),
            ),
            is_outcome(
                r,
                match first_repeated(stmt@, body_of(stmt@), Set::empty(), 0) {
                    Some(member) => Some(duplicate(scope_label(stmt@), member)),
                    None => None,
                },
            ),
    {
        match &stmt.stmtKind {
            StatementKind::Interface(_, id, _, b, _) => {
                let _ = self.typer.insert_type(
                    &id.value,
                    TypeDefinitionKind::UserObject(id.value.clone()),
                );
                Resolver::resolve_members(stmt, b, "Interface")
            },
            _ => Ok(()),
        }
    }
}

} // verus!
