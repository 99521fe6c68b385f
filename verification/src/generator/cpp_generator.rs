//! The generator of C++ headers.

use crate::generator::generator::{Generate, GeneratedFile, GeneratedFileView};
use crate::generator::spec::Spec;
use crate::parser::ast::{type_text, BlockStatement, StatementKind, StatementView};
use vstd::prelude::*;
use vstd::string::StringExecFns;

verus! {

/// The first lines of every generated header.
pub open spec fn header_text() -> Seq<char> {
    "// AUTOGENERATED FILE - DO NOT MODIFY!\n"@ + "// This file was generated by rusty_lamp\n"@
        + "#pragma once\n"@
}

/// `body` inside the namespace of the generated code.
pub open spec fn in_namespace(body: Seq<char>) -> Seq<char> {
    "namespace_gen {\n"@ + body + "}\n"@
}

/// The path of the header for the declaration `name`.
pub open spec fn header_path(root: Seq<char>, cpp_root: Seq<char>, name: Seq<char>) -> Seq<char> {
    root + "/"@ + cpp_root + "/"@ + name + ".hpp"@
}

/// The line of one statement in the body of an enum: an option with `;`
/// behind it; nothing for any other statement.
pub open spec fn enum_line(s: StatementView) -> Seq<char> {
    match s {
        StatementView::EnumMember(_, i) => i.value + ";\n"@,
        _ => Seq::empty(),
    }
}

/// The line of one statement in the body of a record: the type and the name
/// of a field; nothing for any other statement.
pub open spec fn record_line(s: StatementView) -> Seq<char> {
    match s {
        StatementView::RecordMember(_, i, t) => type_text(t) + " "@ + i.value + ";\n"@,
        _ => Seq::empty(),
    }
}

/// The lines of the statements of a body: those of an enum if `of_enum`,
/// else those of a record.
pub open spec fn body_lines(body: Seq<StatementView>, of_enum: bool) -> Seq<char>
    decreases body.len(),
{
    if body.len() == 0 {
        Seq::empty()
    } else {
        body_lines(body.drop_last(), of_enum) + if of_enum {
            enum_line(body.last())
        } else {
            record_line(body.last())
        }
    }
}

/// The header of an enum.
pub open spec fn enum_header(name: Seq<char>, body: Seq<StatementView>) -> Seq<char> {
    header_text() + in_namespace("enum "@ + name + "\n"@ + body_lines(body, true) + "}\n"@)
}

/// The header of a record.
pub open spec fn record_header(name: Seq<char>, body: Seq<StatementView>) -> Seq<char> {
    header_text() + in_namespace(
        "struct "@ + name + " {\n"@ + body_lines(body, false) + "};\n"@,
    )
}

pub struct CppGenerator {}

impl CppGenerator {
    pub fn new() -> (r: CppGenerator)
        ensures
            r == (CppGenerator {  }),
    {
        CppGenerator {  }
    }

    /// Writes the first lines of a header.
    fn write_header(&self, w: &mut String)
        ensures
            final(w)@ == old(w)@ + header_text(),
    {
        let ghost start = w@;
        w.append("// AUTOGENERATED FILE - DO NOT MODIFY!\n");
        w.append("// This file was generated by rusty_lamp\n");
        w.append("#pragma once\n");
        assert(w@ =~= start + header_text());
    }

    /// Writes `block` inside the namespace of the generated code.
    fn wrap_with_namespace(&self, w: &mut String, block: &String)
        ensures
            final(w)@ == old(w)@ + in_namespace(block@),
    {
        let ghost start = w@;
        w.append("namespace_gen {\n");
        w.append(block.as_str());
        w.append("}\n");
        assert(w@ =~= start + in_namespace(block@));
    }

    /// The path of the header for the declaration `name`.
    fn make_path(spec: &Spec, name: &String) -> (r: String)
        ensures
            r@ == header_path(spec.root@, spec.cpp_root@, name@),
    {
        spec.root.clone().concat("/").concat(spec.cpp_root.as_str()).concat("/").concat(
            name.as_str(),
        ).concat(".hpp")
    }

    /// The lines of the body `b`.
    fn write_body(b: &BlockStatement, of_enum: bool) -> (r: String)
        ensures
            r@ == body_lines(b@.statements, of_enum),
    {
        let ghost all = b@.statements;
        let mut out = String::new();
        let mut k: usize = 0;
        assert(all.take(0) =~= Seq::<StatementView>::empty());
        while k < b.statements.len()
            invariant
                k <= b.statements.len(),
                all == b@.statements,
                out@ == body_lines(all.take(k as int), of_enum),
            decreases b.statements.len() - k,
        {
            let ghost before = out@;
            match &b.statements[k].stmtKind {
                StatementKind::EnumMember(_, oi) => {
                    if of_enum {
                        out.append(oi.value.as_str());
                        out.append(";\n");
                    }
                },
                StatementKind::RecordMember(_, id, dts) => {
                    if !of_enum {
                        let ty = dts.render();
                        out.append(ty.as_str());
                        out.append(" ");
                        out.append(id.value.as_str());
                        out.append(";\n");
                    }
                },
                _ => {},
            }
            proof {
                assert(all.take(k + 1).drop_last() =~= all.take(k as int));
                assert(all.take(k + 1).last() == b.statements[k as int]@);
                let line = if of_enum {
                    enum_line(b.statements[k as int]@)
                } else {
                    record_line(b.statements[k as int]@)
                };
                assert(out@ =~= before + line);
            }
            k += 1;
        }
        assert(all.take(k as int) =~= all);
        out
    }
}

impl Generate for CppGenerator {
    open spec fn enum_files(&self, e: StatementView, root: Seq<char>, cpp_root: Seq<char>) -> Seq<
        GeneratedFileView,
    > {
        match e {
            StatementView::Enum(_, i, b) => seq![
                GeneratedFileView {
                    path: header_path(root, cpp_root, i.value),
                    contents: enum_header(i.value, b.statements),
                },
            ],
            _ => Seq::empty(),
        }
    }

    open spec fn record_files(&self, r: StatementView, root: Seq<char>, cpp_root: Seq<char>) -> Seq<
        GeneratedFileView,
    > {
        match r {
            StatementView::Record(_, i, b, _) => seq![
                GeneratedFileView {
                    path: header_path(root, cpp_root, i.value),
                    contents: record_header(i.value, b.statements),
                },
            ],
            _ => Seq::empty(),
        }
    }

    open spec fn interface_files(&self, i: StatementView) -> Seq<GeneratedFileView> {
        Seq::empty()
    }

    fn write_enum(&self, e: &StatementKind, spec: &Spec) -> (r: Option<GeneratedFile>) {
        match e {
            StatementKind::Enum(_, i, b) => {
                let mut w = String::new();
                self.write_header(&mut w);
                let lines = CppGenerator::write_body(b, true);
                let block = String::from_str("enum ").concat(i.value.as_str()).concat("\n").concat(
                    lines.as_str(),
                ).concat("}\n");
                self.wrap_with_namespace(&mut w, &block);
                assert(w@ =~= enum_header(i@.value, b@.statements));
                Some(GeneratedFile { path: CppGenerator::make_path(spec, &i.value), contents: w })
            },
            _ => None,
        }
    }

    fn write_record(&self, r: &StatementKind, spec: &Spec) -> (f: Option<GeneratedFile>) {
        match r {
            StatementKind::Record(_, i, bs, _) => {
                let mut w = String::new();
                self.write_header(&mut w);
                let lines = CppGenerator::write_body(bs, false);
                let block = String::from_str("struct ").concat(i.value.as_str()).concat(
                    " {\n",
                ).concat(lines.as_str()).concat("};\n");
                self.wrap_with_namespace(&mut w, &block);
                assert(w@ =~= record_header(i@.value, bs@.statements));
                Some(GeneratedFile { path: CppGenerator::make_path(spec, &i.value), contents: w })
            },
            _ => None,
        }
    }

    fn write_interface(&self, i: &StatementKind) -> (f: Option<GeneratedFile>) {
        None
    }
}

} // verus!
