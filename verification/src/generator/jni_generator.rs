//! The generator for JNI, which writes no files yet.

use crate::generator::generator::{Generate, GeneratedFile, GeneratedFileView};
use crate::generator::spec::Spec;
use crate::parser::ast::{StatementKind, StatementView};
use vstd::prelude::*;

verus! {

pub struct JniGenerator {}

impl JniGenerator {
    pub fn new() -> (r: JniGenerator)
        ensures
            r == (JniGenerator {  }),
    {
        JniGenerator {  }
    }
}

impl Generate for JniGenerator {
    open spec fn enum_files(&self, e: StatementView, root: Seq<char>, cpp_root: Seq<char>) -> Seq<
        GeneratedFileView,
    > {
        Seq::empty()
    }

    open spec fn record_files(&self, r: StatementView, root: Seq<char>, cpp_root: Seq<char>) -> Seq<
        GeneratedFileView,
    > {
        Seq::empty()
    }

    open spec fn interface_files(&self, i: StatementView) -> Seq<GeneratedFileView> {
        Seq::empty()
    }

    fn write_enum(&self, e: &StatementKind, spec: &Spec) -> (r: Option<GeneratedFile>) {
        None
    }

    fn write_record(&self, r: &StatementKind, spec: &Spec) -> (f: Option<GeneratedFile>) {
        None
    }

    fn write_interface(&self, i: &StatementKind) -> (f: Option<GeneratedFile>) {
        None
    }
}

} // verus!
