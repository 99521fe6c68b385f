//! What a resolve pass decides: it succeeds exactly on the programs in
//! which no name is declared twice in its scope.

use crate::generator::resolver::{
    body_of, declaration_name, first_repeated, member_name, resolve_from, resolve_spec,
    resolve_statement_spec, Resolution,
};
use crate::generator::typer::TypeDefinitionKindView;
use crate::parser::ast::StatementView;
use vstd::prelude::*;

verus! {

/// The name that the statement at index `i` of the body of `owner` declares
/// as a member, if it declares one.
pub open spec fn member_at(owner: StatementView, i: int) -> Option<Seq<char>> {
    member_name(owner, body_of(owner)[i])
}

/// The name that the statement at index `i` of `program` declares, if it
/// declares one.
pub open spec fn declared_at(program: Seq<StatementView>, i: int) -> Option<Seq<char>> {
    declaration_name(program[i])
}

/// From index `k` on, no member name of `owner` is in `seen`, and no two
/// members have the same name.
pub open spec fn members_are_new(owner: StatementView, seen: Set<Seq<char>>, k: int) -> bool {
    &&& forall|i: int|
        k <= i < body_of(owner).len() && (#[trigger] member_at(owner, i)) is Some
            ==> !seen.contains(member_at(owner, i)->0)
    &&& forall|i: int, j: int|
        k <= i < j < body_of(owner).len() && (#[trigger] member_at(owner, i)) is Some && (
        #[trigger] member_at(owner, j)) is Some ==> member_at(owner, i) != member_at(owner, j)
}

/// No two members of `owner` have the same name.
pub open spec fn has_distinct_members(owner: StatementView) -> bool {
    members_are_new(owner, Set::empty(), 0)
}

/// From index `k` on, no declared name is in `seen`, no two declarations
/// have the same name, and no declaration has two members of the same name.
pub open spec fn declarations_are_new(program: Seq<StatementView>, seen: Set<Seq<char>>, k: int)
    -> bool {
    &&& forall|i: int|
        k <= i < program.len() && (#[trigger] declared_at(program, i)) is Some ==> !seen.contains(
            declared_at(program, i)->0,
        )
    &&& forall|i: int, j: int|
        k <= i < j < program.len() && (#[trigger] declared_at(program, i)) is Some && (
        #[trigger] declared_at(program, j)) is Some ==> declared_at(program, i) != declared_at(
            program,
            j,
        )
    &&& forall|i: int|
        k <= i < program.len() && (#[trigger] declared_at(program, i)) is Some
            ==> has_distinct_members(program[i])
}

/// Every top-level declared name is declared once in the program, and every
/// member name once in its enum, record or interface.
pub open spec fn has_unique_names(program: Seq<StatementView>) -> bool {
    declarations_are_new(program, Set::empty(), 0)
}

/// A body has no repeated member name exactly if its member names are new
/// and distinct.
pub proof fn lemma_first_repeated(owner: StatementView, seen: Set<Seq<char>>, k: int)
    requires
        0 <= k <= body_of(owner).len(),
    ensures
        first_repeated(owner, body_of(owner), seen, k) is None <==> members_are_new(
            owner,
            seen,
            k,
        ),
    decreases body_of(owner).len() - k,
{
    let body = body_of(owner);
    if k < body.len() {
        match member_at(owner, k) {
            Some(name) => {
                if seen.contains(name) {
                    assert(member_at(owner, k) is Some);
                } else {
                    let more = seen.insert(name);
                    lemma_first_repeated(owner, more, k + 1);
                    if members_are_new(owner, more, k + 1) {
                        assert forall|i: int|
                            k <= i < body.len() && (#[trigger] member_at(owner, i)) is Some implies
                                !seen.contains(
                            member_at(owner, i)->0,
                        ) by {
                            if i > k {
                                assert(!more.contains(member_at(owner, i)->0));
                            }
                        }
                        assert forall|i: int, j: int|
                            k <= i < j < body.len() && (#[trigger] member_at(owner, i)) is Some && (
                            #[trigger] member_at(owner, j)) is Some implies member_at(owner, i)
                            != member_at(owner, j) by {
                            if i == k {
                                assert(!more.contains(member_at(owner, j)->0));
                            }
                        }
                    }
                    if members_are_new(owner, seen, k) {
                        assert forall|i: int|
                            k + 1 <= i < body.len() && (#[trigger] member_at(owner, i)) is Some implies
                                !more.contains(
                            member_at(owner, i)->0,
                        ) by {
                            assert(member_at(owner, k) is Some);
                            assert(member_at(owner, k) != member_at(owner, i));
                        }
                    }
                }
            },
            None => {
                lemma_first_repeated(owner, seen, k + 1);
                if members_are_new(owner, seen, k + 1) {
                    assert forall|i: int|
                        k <= i < body.len() && (#[trigger] member_at(owner, i)) is Some implies
                            !seen.contains(
                        member_at(owner, i)->0,
                    ) by {}
                }
            },
        }
    }
}

/// The rest of a pass ends without an error exactly if the pass has no
/// error yet and the names from there on are new and distinct.
pub proof fn lemma_resolve_from(st: Resolution, program: Seq<StatementView>, k: int)
    requires
        0 <= k <= program.len(),
    ensures
        resolve_from(st, program, k).error is None <==> st.error is None && declarations_are_new(
            program,
            st.seen,
            k,
        ),
    decreases program.len() - k,
{
    if k < program.len() && st.error is None {
        let s = program[k];
        let next = resolve_statement_spec(st, s);
        lemma_resolve_from(next, program, k + 1);
        match declared_at(program, k) {
            Some(name) => {
                if st.seen.contains(name) {
                    assert(declared_at(program, k) is Some);
                } else {
                    lemma_first_repeated(s, Set::empty(), 0);
                    let more = st.seen.insert(name);
                    if next.error is None && declarations_are_new(program, more, k + 1) {
                        assert forall|i: int|
                            k <= i < program.len() && (#[trigger] declared_at(program, i)) is Some implies
                                !st.seen.contains(
                            declared_at(program, i)->0,
                        ) by {
                            if i > k {
                                assert(!more.contains(declared_at(program, i)->0));
                            }
                        }
                        assert forall|i: int, j: int|
                            k <= i < j < program.len() && (#[trigger] declared_at(program,
                                i)) is Some
                                && (#[trigger] declared_at(program, j)) is Some implies declared_at(
                            program,
                            i,
                        ) != declared_at(program, j) by {
                            if i == k {
                                assert(!more.contains(declared_at(program, j)->0));
                            }
                        }
                        assert forall|i: int|
                            k <= i < program.len() && (#[trigger] declared_at(program, i)) is Some implies
                                has_distinct_members(
                            program[i],
                        ) by {}
                    }
                    if declarations_are_new(program, st.seen, k) {
                        assert(declared_at(program, k) is Some);
                        assert(has_distinct_members(program[k]));
                        assert forall|i: int|
                            k + 1 <= i < program.len() && (#[trigger] declared_at(program,
                                i)) is Some implies !more.contains(
                            declared_at(program, i)->0,
                        ) by {
                            assert(declared_at(program, k) != declared_at(program, i));
                        }
                    }
                }
            },
            None => {
                if declarations_are_new(program, st.seen, k + 1) {
                    assert forall|i: int|
                        k <= i < program.len() && (#[trigger] declared_at(program, i)) is Some implies
                            !st.seen.contains(
                        declared_at(program, i)->0,
                    ) by {}
                    assert forall|i: int|
                        k <= i < program.len() && (#[trigger] declared_at(program, i)) is Some implies
                            has_distinct_members(
                        program[i],
                    ) by {}
                }
            },
        }
    }
}

/// A program resolves without an error exactly if every top-level declared
/// name is declared once in it, and every member name once in its enum,
/// record or interface.
pub proof fn lemma_resolve_checks_names(
    types: Map<Seq<char>, TypeDefinitionKindView>,
    program: Seq<StatementView>,
)
    ensures
        resolve_spec(types, program).error is None <==> has_unique_names(program),
{
    lemma_resolve_from(Resolution { seen: Set::empty(), types, error: None }, program, 0);
}

/// The registry after the statements from index `k` on: each declared name
/// is registered as a user-declared type, later ones over earlier ones.
pub open spec fn registered_from(
    types: Map<Seq<char>, TypeDefinitionKindView>,
    program: Seq<StatementView>,
    k: int,
) -> Map<Seq<char>, TypeDefinitionKindView>
    decreases program.len() - k,
{
    if !(0 <= k < program.len()) {
        types
    } else {
        match declaration_name(program[k]) {
            Some(name) => registered_from(
                types.insert(name, TypeDefinitionKindView::UserObject(name)),
                program,
                k + 1,
            ),
            None => registered_from(types, program, k + 1),
        }
    }
}

/// Where the rest of a pass ends without an error, every declared name from
/// there on is registered.
pub proof fn lemma_resolve_registers_from(st: Resolution, program: Seq<StatementView>, k: int)
    requires
        0 <= k <= program.len(),
        resolve_from(st, program, k).error is None,
    ensures
        resolve_from(st, program, k).types == registered_from(st.types, program, k),
    decreases program.len() - k,
{
    if k < program.len() && st.error is None {
        lemma_resolve_registers_from(resolve_statement_spec(st, program[k]), program, k + 1);
    }
}

/// Where a program resolves without an error, the registry holds, besides
/// what it held, every declared name as a user-declared type.
pub proof fn lemma_resolve_registers(
    types: Map<Seq<char>, TypeDefinitionKindView>,
    program: Seq<StatementView>,
)
    requires
        resolve_spec(types, program).error is None,
    ensures
        resolve_spec(types, program).types == registered_from(types, program, 0),
{
    lemma_resolve_registers_from(
        Resolution { seen: Set::empty(), types, error: None },
        program,
        0,
    );
}

} // verus!
