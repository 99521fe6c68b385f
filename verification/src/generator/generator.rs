//! The frame of the code generators: what a generator writes for each
//! declaration of a program, as files to be stored.

use crate::generator::spec::Spec;
use crate::parser::ast::{StatementKind, StatementView};
use crate::parser::program::Program;
use vstd::prelude::*;

verus! {

/// A file that a generator has written: where it goes and what it holds.
#[derive(Debug)]
pub struct GeneratedFile {
    pub path: String,
    pub contents: String,
}

/// Model of a [`GeneratedFile`].
pub ghost struct GeneratedFileView {
    pub path: Seq<char>,
    pub contents: Seq<char>,
}

impl View for GeneratedFile {
    type V = GeneratedFileView;

    open spec fn view(&self) -> GeneratedFileView {
        GeneratedFileView { path: self.path@, contents: self.contents@ }
    }
}

/// The models of the files in `v`.
pub open spec fn files_view(v: Seq<GeneratedFile>) -> Seq<GeneratedFileView> {
    Seq::new(v.len(), |i: int| v[i]@)
}

/// The files in an option, none or one.
pub open spec fn file_or_none(o: Option<GeneratedFile>) -> Seq<GeneratedFileView> {
    match o {
        Some(f) => seq![f@],
        None => Seq::empty(),
    }
}

/// A generator for one target language.
pub trait Generate {
    /// The files for an enum.
    spec fn enum_files(&self, e: StatementView, root: Seq<char>, cpp_root: Seq<char>) -> Seq<
        GeneratedFileView,
    >;

    /// The files for a record.
    spec fn record_files(&self, r: StatementView, root: Seq<char>, cpp_root: Seq<char>) -> Seq<
        GeneratedFileView,
    >;

    /// The files for an interface.
    spec fn interface_files(&self, i: StatementView) -> Seq<GeneratedFileView>;

    fn write_enum(&self, e: &StatementKind, spec: &Spec) -> (r: Option<GeneratedFile>)
        ensures
            file_or_none(r) == self.enum_files(e@, spec.root@, spec.cpp_root@),
    ;

    fn write_record(&self, r: &StatementKind, spec: &Spec) -> (f: Option<GeneratedFile>)
        ensures
            file_or_none(f) == self.record_files(r@, spec.root@, spec.cpp_root@),
    ;

    fn write_interface(&self, i: &StatementKind) -> (f: Option<GeneratedFile>)
        ensures
            file_or_none(f) == self.interface_files(i@),
    ;
}

/// The files that `gen` writes for one top-level statement: those of an
/// enum or of a record, and none for any other statement.
pub open spec fn statement_files<G: Generate>(
    gen: G,
    s: StatementView,
    root: Seq<char>,
    cpp_root: Seq<char>,
) -> Seq<GeneratedFileView> {
    match s {
        StatementView::Enum(_, _, _) => gen.enum_files(s, root, cpp_root),
        StatementView::Record(_, _, _, _) => gen.record_files(s, root, cpp_root),
        _ => Seq::empty(),
    }
}

/// The files that `gen` writes for the statements of a program, in their order.
pub open spec fn program_files<G: Generate>(
    gen: G,
    program: Seq<StatementView>,
    root: Seq<char>,
    cpp_root: Seq<char>,
) -> Seq<GeneratedFileView>
    decreases program.len(),
{
    if program.len() == 0 {
        Seq::empty()
    } else {
        program_files(gen, program.drop_last(), root, cpp_root) + statement_files(
            gen,
            program.last(),
            root,
            cpp_root,
        )
    }
}

/// Runs one generator over a program.
pub struct Generator<G: Generate> {
    pub gen: G,
}

impl<G: Generate> Generator<G> {
    pub fn new(gen: G) -> (r: Generator<G>)
        ensures
            r.gen == gen,
    {
        Generator { gen }
    }

    /// The files for the enums and records of `program`, in their order.
    pub fn generate(&self, spec: &Spec, program: &Program) -> (r: Vec<GeneratedFile>)
        ensures
            files_view(r@) == program_files(self.gen, program@, spec.root@, spec.cpp_root@),
    {
        let mut files: Vec<GeneratedFile> = Vec::new();
        let mut k: usize = 0;
        assert(files_view(files@) =~= program_files(
            self.gen,
            program@.take(0),
            spec.root@,
            spec.cpp_root@,
        ));
        while k < program.statements.len()
            invariant
                k <= program.statements.len(),
                files_view(files@) == program_files(
                    self.gen,
                    program@.take(k as int),
                    spec.root@,
                    spec.cpp_root@,
                ),
            decreases program.statements.len() - k,
        {
            let stmt = &program.statements[k];
            let ghost before = files@;
            let file = match &stmt.stmtKind {
                StatementKind::Enum(_, _, _) => self.gen.write_enum(&stmt.stmtKind, spec),
                StatementKind::Record(_, _, _, _) => self.gen.write_record(&stmt.stmtKind, spec),
                _ => None,
            };
            match file {
                Some(f) => {
                    files.push(f);
                },
                None => {},
            }
            proof {
                assert(program@.take(k + 1).drop_last() =~= program@.take(k as int));
                assert(program@.take(k + 1).last() == stmt@);
                assert(files_view(files@) =~= files_view(before) + statement_files(
                    self.gen,
                    stmt@,
                    spec.root@,
                    spec.cpp_root@,
                ));
            }
            k += 1;
        }
        assert(program@.take(k as int) =~= program@);
        files
    }
}

} // verus!
