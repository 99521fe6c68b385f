//! Front end for a small interface-definition language: a lexer, a
//! recursive-descent parser that builds a syntax tree, a type registry and a
//! resolver that checks that declared names are unique. On top of them stand
//! a formatter and the frame of the generators of bindings.

pub mod generator;
pub mod parser;
pub mod text;

use crate::generator::cpp_generator::CppGenerator;
use crate::generator::generator::{
    files_view, program_files, GeneratedFile, GeneratedFileView, Generator,
};
use crate::generator::java_generator::JavaGenerator;
use crate::generator::jni_generator::JniGenerator;
use crate::generator::objc_generator::ObjcGenerator;
use crate::generator::resolver::{resolve_spec, ResolveError, ResolveErrorView, Resolver};
use crate::generator::spec::Spec;
use crate::parser::djinni_fmt::{format_spec, is_formatted, LampFmt};
use crate::parser::grammar::{program_spec, ParseErrorView};
use crate::parser::lexer::lex_spec;
use crate::parser::parser::{errors_view, parse_text, ParseError};
use vstd::prelude::*;

verus! {

/// Why a text could not be compiled.
#[derive(Debug)]
pub enum CompileError {
    /// The text did not parse: the errors in the order of the text.
    Parse(Vec<ParseError>),
    /// A name is declared twice.
    Resolve(ResolveError),
}

/// Model of a [`CompileError`].
pub ghost enum CompileErrorView {
    Parse(Seq<ParseErrorView>),
    Resolve(ResolveErrorView),
}

impl View for CompileError {
    type V = CompileErrorView;

    open spec fn view(&self) -> CompileErrorView {
        match *self {
            CompileError::Parse(errors) => CompileErrorView::Parse(errors_view(errors@)),
            CompileError::Resolve(e) => CompileErrorView::Resolve(e@),
        }
    }
}

/// What compiling a text gives, with the output folders `root` and
/// `cpp_root` and the registry `types` to start from.
///
/// A text with parse errors gives those errors. Else the program is
/// resolved, and a name declared twice gives that error. Else the result is
/// the files that the generators for C++, Java, JNI and Objective-C write for
/// the program, in this order.
pub open spec fn compile_spec(
    contents: Seq<char>,
    spec: Spec,
) -> Result<Seq<GeneratedFileView>, CompileErrorView> {
    let parsed = program_spec(lex_spec(contents), 0);
    if parsed.errors.len() > 0 {
        Err(CompileErrorView::Parse(parsed.errors))
    } else {
        match resolve_spec(spec.typer@, parsed.value).error {
            Some(e) => Err(CompileErrorView::Resolve(e)),
            None => Ok(
                program_files(CppGenerator {  }, parsed.value, spec.root@, spec.cpp_root@)
                    + program_files(JavaGenerator {  }, parsed.value, spec.root@, spec.cpp_root@)
                    + program_files(JniGenerator {  }, parsed.value, spec.root@, spec.cpp_root@)
                    + program_files(ObjcGenerator {  }, parsed.value, spec.root@, spec.cpp_root@),
            ),
        }
    }
}

/// Whether `r` is the outcome that `expected` stands for.
pub open spec fn is_compiled(
    r: Result<Vec<GeneratedFile>, CompileError>,
    expected: Result<Seq<GeneratedFileView>, CompileErrorView>,
) -> bool {
    match r {
        Ok(files) => expected == Ok::<Seq<GeneratedFileView>, CompileErrorView>(files_view(files@)),
        Err(e) => expected == Err::<Seq<GeneratedFileView>, CompileErrorView>(e@),
    }
}

/// Formats the text `input`: parses it and writes its statements back in a
/// fixed layout. A text with parse errors gives those errors.
pub fn process(input: String) -> (r: Result<String, Vec<ParseError>>)
    ensures
        is_formatted(r, format_spec(input@)),
{
    let fmt = LampFmt::new(input);
    fmt.fmt()
}

/// Compiles the text `contents` of a file: parses it, resolves its names and
/// runs the generators. The result holds the files to store.
pub fn compile(contents: String, spec: &Spec) -> (r: Result<Vec<GeneratedFile>, CompileError>)
    ensures
        is_compiled(r, compile_spec(contents@, *spec)),
{
    let program = match parse_text(contents) {
        Ok(p) => p,
        Err(errors) => {
            return Err(CompileError::Parse(errors));
        },
    };
    let mut resolver = Resolver::with_typer(spec.typer.clone());
    match resolver.resolve(&program) {
        Ok(_) => {},
        Err(e) => {
            return Err(CompileError::Resolve(e));
        },
    }
    let mut files = Generator::new(CppGenerator::new()).generate(spec, &program);
    let mut java = Generator::new(JavaGenerator::new()).generate(spec, &program);
    let mut jni = Generator::new(JniGenerator::new()).generate(spec, &program);
    let mut objc = Generator::new(ObjcGenerator::new()).generate(spec, &program);
    let ghost cpp_files = files_view(files@);
    let ghost java_files = files_view(java@);
    let ghost jni_files = files_view(jni@);
    let ghost objc_files = files_view(objc@);
    files.append(&mut java);
    files.append(&mut jni);
    files.append(&mut objc);
    assert(files_view(files@) =~= cpp_files + java_files + jni_files + objc_files);
    Ok(files)
}

} // verus!
