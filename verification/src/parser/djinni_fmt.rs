//! The formatter: parses a text and writes its statements back in a fixed layout.

use crate::parser::ast::{
    block_text, derive_text, interface_type_text, modifier_text, type_text, BlockStatement,
    DataTypeStatement, DataTypeStatementView, DeriveType, FunctionModifier, InterfaceType,
    Parameter, ParameterView, Statement, StatementKind, StatementView, parameters_view,
};
use crate::parser::grammar::{program_spec, ParseErrorView};
use crate::parser::lexer::lex_spec;
use crate::parser::parser::{errors_view, parse_text, ParseError};
use vstd::prelude::*;
use vstd::string::StringExecFns;

verus! {

/// The indentation of nesting depth `depth`: four spaces for each level.
pub open spec fn spaces(depth: nat) -> Seq<char>
    decreases depth,
{
    if depth == 0 {
        Seq::empty()
    } else {
        spaces((depth - 1) as nat) + "    "@
    }
}

/// A `deriving` clause: a line break if there is nothing to derive, else
/// the derives in brackets with `, ` between them, and a line break.
pub open spec fn format_deriving(d: Seq<DeriveType>) -> Seq<char> {
    if d.len() == 0 {
        "\n"@
    } else {
        " deriving ("@ + format_derives(d) + ")\n"@
    }
}

/// The derives with `, ` between them.
pub open spec fn format_derives(d: Seq<DeriveType>) -> Seq<char>
    decreases d.len(),
{
    if d.len() == 0 {
        Seq::empty()
    } else if d.len() == 1 {
        derive_text(d[0])
    } else {
        format_derives(d.drop_last()) + ", "@ + derive_text(d.last())
    }
}

/// The targets of an interface, each with a space behind it.
pub open spec fn format_targets(t: Seq<InterfaceType>) -> Seq<char>
    decreases t.len(),
{
    if t.len() == 0 {
        Seq::empty()
    } else {
        format_targets(t.drop_last()) + interface_type_text(t.last()) + " "@
    }
}

/// The parameters of a function as `name: type`, with `, ` between them.
pub open spec fn format_parameters(p: Seq<ParameterView>) -> Seq<char>
    decreases p.len(),
{
    if p.len() == 0 {
        Seq::empty()
    } else if p.len() == 1 {
        format_parameter(p[0])
    } else {
        format_parameters(p.drop_last()) + ", "@ + format_parameter(p.last())
    }
}

pub open spec fn format_parameter(p: ParameterView) -> Seq<char> {
    p.ident.value + ": "@ + type_text(p.data_type)
}

/// The return type of a function: nothing for a function that returns
/// nothing, else `: ` and the type.
pub open spec fn format_return(r: DataTypeStatementView) -> Seq<char> {
    if r is Nothing {
        Seq::empty()
    } else {
        ": "@ + type_text(r)
    }
}

/// An enum: its head, its body one level deeper, and its closing line.
pub open spec fn format_enum(name: Seq<char>, body: Seq<StatementView>, depth: nat) -> Seq<char>
    decreases body, 1nat,
{
    name + " = enum {\n"@ + format_block(body, depth + 1) + "}\n"@
}

/// A record: its head, its body one level deeper, and its `deriving` clause.
pub open spec fn format_record(
    name: Seq<char>,
    body: Seq<StatementView>,
    d: Seq<DeriveType>,
    depth: nat,
) -> Seq<char>
    decreases body, 1nat,
{
    name + " = record {\n"@ + format_block(body, depth + 1) + "}"@ + format_deriving(d)
}

/// An interface: its head with its targets, its body one level deeper, and
/// its `deriving` clause.
pub open spec fn format_interface(
    name: Seq<char>,
    targets: Seq<InterfaceType>,
    body: Seq<StatementView>,
    d: Seq<DeriveType>,
    depth: nat,
) -> Seq<char>
    decreases body, 1nat,
{
    name + " = interface "@ + format_targets(targets) + " {\n"@ + format_block(body, depth + 1)
        + "}"@ + format_deriving(d)
}

/// A member of an enum on a line of its own.
pub open spec fn format_enum_member(name: Seq<char>, pad: Seq<char>) -> Seq<char> {
    pad + name + ";\n"@
}

/// A field of a record on a line of its own.
pub open spec fn format_record_member(name: Seq<char>, t: DataTypeStatementView, pad: Seq<char>)
    -> Seq<char> {
    pad + name + ": "@ + type_text(t) + ";\n"@
}

/// A comment on a line of its own.
pub open spec fn format_comment(text: Seq<char>, pad: Seq<char>) -> Seq<char> {
    pad + "#"@ + text + "\n"@
}

/// A function on a line of its own: its modifier if it has one, its name,
/// its parameters in brackets, its return type if it has one, and `;`.
pub open spec fn format_function(
    m: FunctionModifier,
    name: Seq<char>,
    p: Seq<ParameterView>,
    r: DataTypeStatementView,
    pad: Seq<char>,
) -> Seq<char> {
    pad + (if m == FunctionModifier::Nothing {
        Seq::empty()
    } else {
        modifier_text(m) + " "@
    }) + name + "("@ + format_parameters(p) + ")"@ + format_return(r) + ";\n"@
}

/// An import with its path in quotes.
pub open spec fn format_import(path: Seq<char>) -> Seq<char> {
    "@import \""@ + path + "\"\n"@
}

/// A constant on a line of its own, with the text `value` of its value.
pub open spec fn format_const(
    name: Seq<char>,
    t: DataTypeStatementView,
    value: Seq<char>,
    pad: Seq<char>,
) -> Seq<char> {
    pad + "const "@ + name + ": "@ + type_text(t) + " = "@ + value + ";\n"@
}

/// A string in quotes.
pub open spec fn format_string(text: Seq<char>) -> Seq<char> {
    "\""@ + text + "\""@
}

/// A block of definitions: the canonical text of its statements on one
/// line, one level deeper, between braces.
pub open spec fn format_definitions(body: Seq<StatementView>, depth: nat) -> Seq<char> {
    " {\n"@ + spaces(depth + 1) + block_text(body) + "\n"@ + spaces(depth) + "}"@
}

/// The text of a statement at nesting depth `depth`.
///
/// A declaration and an import have an empty line behind them. The empty
/// statement, a definition and a bare name have no text.
pub open spec fn format_statement(s: StatementView, depth: nat) -> Seq<char>
    decreases s, 0nat,
{
    match s {
        StatementView::Enum(_, i, b) => format_enum(i.value, b.statements, depth) + "\n"@,
        StatementView::EnumMember(_, i) => format_enum_member(i.value, spaces(depth)),
        StatementView::Record(_, i, b, d) => format_record(i.value, b.statements, d, depth)
            + "\n"@,
        StatementView::RecordMember(_, i, t) => format_record_member(i.value, t, spaces(depth)),
        StatementView::Comment(_, text) => format_comment(text, spaces(depth)),
        StatementView::Interface(_, i, targets, b, d) => format_interface(
            i.value,
            targets,
            b.statements,
            d,
            depth,
        ) + "\n"@,
        StatementView::Function(_, m, i, p, r) => format_function(m, i.value, p, r, spaces(depth)),
        StatementView::Import(_, path) => format_import(path) + "\n"@,
        StatementView::Const(_, i, t, v) => format_const(
            i.value,
            t,
            format_statement(*v, depth),
            spaces(depth),
        ),
        StatementView::StringLiteral(_, text) => format_string(text),
        StatementView::NumberLiteral(_, text) => text,
        StatementView::Boolean(_, b) => if b {
            "true"@
        } else {
            "false"@
        },
        StatementView::Block(b) => format_definitions(b.statements, depth),
        _ => Seq::empty(),
    }
}

/// The texts of the statements at nesting depth `depth`, one after the other.
pub open spec fn format_block(v: Seq<StatementView>, depth: nat) -> Seq<char>
    decreases v, 0nat,
{
    if v.len() == 0 {
        Seq::empty()
    } else {
        format_block(v.drop_last(), depth) + format_statement(v.last(), depth)
    }
}

/// The formatted text of a program.
pub open spec fn format_program(p: Seq<StatementView>) -> Seq<char> {
    format_block(p, 0)
}

/// The formatted text of a text: that of the program that the text parses
/// to; the parse errors of a text that does not parse without an error.
pub open spec fn format_spec(input: Seq<char>) -> Result<Seq<char>, Seq<ParseErrorView>> {
    let parsed = program_spec(lex_spec(input), 0);
    if parsed.errors.len() == 0 {
        Ok(format_program(parsed.value))
    } else {
        Err(parsed.errors)
    }
}

/// Whether `r` is the outcome that `expected` stands for.
pub open spec fn is_formatted(
    r: Result<String, Vec<ParseError>>,
    expected: Result<Seq<char>, Seq<ParseErrorView>>,
) -> bool {
    match r {
        Ok(text) => expected == Ok::<Seq<char>, Seq<ParseErrorView>>(text@),
        Err(errors) => expected == Err::<Seq<char>, Seq<ParseErrorView>>(errors_view(errors@)),
    }
}

/// Appending two texts one after the other appends their concatenation.
proof fn lemma_append_twice(a: Seq<char>, b: Seq<char>, c: Seq<char>)
    ensures
        (a + b) + c == a + (b + c),
{
    assert((a + b) + c =~= a + (b + c));
}

/// A formatter of one text.
pub struct LampFmt {
    input: String,
}

impl LampFmt {
    /// The text to format.
    pub closed spec fn text(&self) -> Seq<char> {
        self.input@
    }

    pub fn new(input: String) -> (f: LampFmt)
        ensures
            f.text() == input@,
    {
        LampFmt { input }
    }

    /// Parses the text and gives the formatted text of its statements, or
    /// the parse errors of the text.
    pub fn fmt(&self) -> (r: Result<String, Vec<ParseError>>)
        ensures
            is_formatted(r, format_spec(self.text())),
    {
        let program = match parse_text(self.input.clone()) {
            Ok(program) => program,
            Err(errors) => {
                return Err(errors);
            },
        };
        let mut out = String::new();
        let pad = String::new();
        let mut k: usize = 0;
        while k < program.statements.len()
            invariant
                k <= program.statements.len(),
                pad@ == spaces(0),
                out@ == format_block(program@.take(k as int), 0),
            decreases program.statements.len() - k,
        {
            assert(program@.take(k + 1).drop_last() =~= program@.take(k as int));
            assert(program@.take(k + 1).last() == program.statements[k as int]@);
            LampFmt::print_statement(&mut out, &program.statements[k], &pad, Ghost(0));
            k += 1;
        }
        assert(program@.take(k as int) =~= program@);
        Ok(out)
    }

    fn print_statement(out: &mut String, stmt: &Statement, pad: &String, Ghost(depth): Ghost<nat>)
        requires
            pad@ == spaces(depth),
        ensures
            final(out)@ == old(out)@ + format_statement(stmt@, depth),
        decreases stmt, 1nat,
    {
        LampFmt::print_statement_kind(out, &stmt.stmtKind, pad, Ghost(depth));
    }

    fn print_statement_kind(
        out: &mut String,
        stmt_kind: &StatementKind,
        pad: &String,
        Ghost(depth): Ghost<nat>,
    )
        requires
            pad@ == spaces(depth),
        ensures
            final(out)@ == old(out)@ + format_statement(stmt_kind@, depth),
        decreases stmt_kind, 0nat,
    {
        let ghost start = out@;
        match stmt_kind {
            StatementKind::Enum(_, i, b) => {
                LampFmt::print_enum_statement(out, &i.value, b, pad, Ghost(depth));
                LampFmt::print_newline(out);
                proof {
                    lemma_append_twice(start, format_enum(i@.value, b@.statements, depth), "\n"@);
                }
            },
            StatementKind::EnumMember(_, i) => {
                LampFmt::print_enum_member(out, &i.value, pad);
            },
            StatementKind::Record(_, i, b, d) => {
                LampFmt::print_record_statement(out, &i.value, b, d, pad, Ghost(depth));
                LampFmt::print_newline(out);
                proof {
                    lemma_append_twice(
                        start,
                        format_record(i@.value, b@.statements, d@, depth),
                        "\n"@,
                    );
                }
            },
            StatementKind::RecordMember(_, i, dt) => {
                LampFmt::print_record_member(out, &i.value, dt, pad);
            },
            StatementKind::Comment(_, s) => {
                LampFmt::print_comment_statement(out, s, pad);
            },
            StatementKind::Interface(_, i, p, b, d) => {
                LampFmt::print_interface_statement(out, &i.value, p, b, d, pad, Ghost(depth));
                LampFmt::print_newline(out);
                proof {
                    lemma_append_twice(
                        start,
                        format_interface(i@.value, p@, b@.statements, d@, depth),
                        "\n"@,
                    );
                }
            },
            StatementKind::Function(_, fm, i, p, dt) => {
                LampFmt::print_function_statement(out, fm, &i.value, p, dt, pad);
            },
            StatementKind::Import(_, s) => {
                LampFmt::print_import_statement(out, s);
                LampFmt::print_newline(out);
                proof {
                    lemma_append_twice(start, format_import(s@), "\n"@);
                }
            },
            StatementKind::Const(_, i, dt, v) => {
                LampFmt::print_const_statement(out, &i.value, dt, &**v, pad, Ghost(depth));
            },
            StatementKind::StringLiteral(_, s) => {
                LampFmt::print_string_literal(out, s);
            },
            StatementKind::NumberLiteral(_, s) => {
                out.append(s.as_str());
            },
            StatementKind::Boolean(_, b) => {
                if *b {
                    out.append("true");
                } else {
                    out.append("false");
                }
            },
            StatementKind::Block(b) => {
                LampFmt::print_block(out, b, pad, Ghost(depth));
            },
            _ => {
                assert(out@ =~= start + Seq::<char>::empty());
            },
        }
    }

    fn print_enum_statement(
        out: &mut String,
        name: &String,
        b: &BlockStatement,
        pad: &String,
        Ghost(depth): Ghost<nat>,
    )
        requires
            pad@ == spaces(depth),
        ensures
            final(out)@ == old(out)@ + format_enum(name@, b@.statements, depth),
        decreases b, 1nat,
    {
        let ghost start = out@;
        out.append(name.as_str());
        out.append(" = enum {\n");
        LampFmt::print_block_statement(out, b, pad, Ghost(depth));
        out.append("}\n");
        assert(out@ =~= start + format_enum(name@, b@.statements, depth));
    }

    fn print_enum_member(out: &mut String, name: &String, pad: &String)
        ensures
            final(out)@ == old(out)@ + format_enum_member(name@, pad@),
    {
        let ghost start = out@;
        LampFmt::print_spaces(out, pad);
        out.append(name.as_str());
        out.append(";\n");
        assert(out@ =~= start + format_enum_member(name@, pad@));
    }

    fn print_record_statement(
        out: &mut String,
        name: &String,
        b: &BlockStatement,
        d: &Vec<DeriveType>,
        pad: &String,
        Ghost(depth): Ghost<nat>,
    )
        requires
            pad@ == spaces(depth),
        ensures
            final(out)@ == old(out)@ + format_record(name@, b@.statements, d@, depth),
        decreases b, 1nat,
    {
        let ghost start = out@;
        out.append(name.as_str());
        out.append(" = record {\n");
        LampFmt::print_block_statement(out, b, pad, Ghost(depth));
        out.append("}");
        LampFmt::print_deriving(out, d);
        assert(out@ =~= start + format_record(name@, b@.statements, d@, depth));
    }

    fn print_record_member(out: &mut String, name: &String, dt: &DataTypeStatement, pad: &String)
        ensures
            final(out)@ == old(out)@ + format_record_member(name@, dt@, pad@),
    {
        let ghost start = out@;
        LampFmt::print_spaces(out, pad);
        out.append(name.as_str());
        out.append(": ");
        let ty = dt.render();
        out.append(ty.as_str());
        out.append(";\n");
        assert(out@ =~= start + format_record_member(name@, dt@, pad@));
    }

    fn print_interface_statement(
        out: &mut String,
        name: &String,
        p: &Vec<InterfaceType>,
        b: &BlockStatement,
        d: &Vec<DeriveType>,
        pad: &String,
        Ghost(depth): Ghost<nat>,
    )
        requires
            pad@ == spaces(depth),
        ensures
            final(out)@ == old(out)@ + format_interface(name@, p@, b@.statements, d@, depth),
        decreases b, 1nat,
    {
        let ghost start = out@;
        out.append(name.as_str());
        out.append(" = interface ");
        LampFmt::print_targets(out, p);
        out.append(" {\n");
        LampFmt::print_block_statement(out, b, pad, Ghost(depth));
        out.append("}");
        LampFmt::print_deriving(out, d);
        assert(out@ =~= start + format_interface(name@, p@, b@.statements, d@, depth));
    }

    fn print_comment_statement(out: &mut String, text: &String, pad: &String)
        ensures
            final(out)@ == old(out)@ + format_comment(text@, pad@),
    {
        let ghost start = out@;
        LampFmt::print_spaces(out, pad);
        out.append("#");
        out.append(text.as_str());
        out.append("\n");
        assert(out@ =~= start + format_comment(text@, pad@));
    }

    fn print_import_statement(out: &mut String, path: &String)
        ensures
            final(out)@ == old(out)@ + format_import(path@),
    {
        let ghost start = out@;
        out.append("@import \"");
        out.append(path.as_str());
        out.append("\"\n");
        assert(out@ =~= start + format_import(path@));
    }

    fn print_const_statement(
        out: &mut String,
        name: &String,
        dt: &DataTypeStatement,
        v: &Statement,
        pad: &String,
        Ghost(depth): Ghost<nat>,
    )
        requires
            pad@ == spaces(depth),
        ensures
            final(out)@ == old(out)@ + format_const(
                name@,
                dt@,
                format_statement(v@, depth),
                pad@,
            ),
        decreases v, 2nat,
    {
        let ghost start = out@;
        LampFmt::print_spaces(out, pad);
        out.append("const ");
        out.append(name.as_str());
        out.append(": ");
        let ty = dt.render();
        out.append(ty.as_str());
        out.append(" = ");
        LampFmt::print_statement(out, v, pad, Ghost(depth));
        out.append(";\n");
        assert(out@ =~= start + format_const(name@, dt@, format_statement(v@, depth), pad@));
    }

    fn print_string_literal(out: &mut String, text: &String)
        ensures
            final(out)@ == old(out)@ + format_string(text@),
    {
        let ghost start = out@;
        out.append("\"");
        out.append(text.as_str());
        out.append("\"");
        assert(out@ =~= start + format_string(text@));
    }

    fn print_block(out: &mut String, b: &BlockStatement, pad: &String, Ghost(depth): Ghost<nat>)
        requires
            pad@ == spaces(depth),
        ensures
            final(out)@ == old(out)@ + format_definitions(b@.statements, depth),
    {
        let ghost start = out@;
        out.append(" {\n");
        LampFmt::print_spaces(out, pad);
        out.append("    ");
        let body = b.render();
        out.append(body.as_str());
        out.append("\n");
        LampFmt::print_spaces(out, pad);
        out.append("}");
        assert(out@ =~= start + format_definitions(b@.statements, depth));
    }

    fn print_targets(out: &mut String, targets: &Vec<InterfaceType>)
        ensures
            final(out)@ == old(out)@ + format_targets(targets@),
    {
        let ghost start = out@;
        let mut k: usize = 0;
        assert(out@ =~= start + format_targets(targets@.take(0)));
        while k < targets.len()
            invariant
                k <= targets.len(),
                out@ == start + format_targets(targets@.take(k as int)),
            decreases targets.len() - k,
        {
            let tag = targets[k].render();
            out.append(tag.as_str());
            out.append(" ");
            proof {
                assert(targets@.take(k + 1).drop_last() =~= targets@.take(k as int));
                assert(out@ =~= start + format_targets(targets@.take(k + 1)));
            }
            k += 1;
        }
        assert(targets@.take(k as int) =~= targets@);
    }

    fn print_deriving(out: &mut String, deriving: &Vec<DeriveType>)
        ensures
            final(out)@ == old(out)@ + format_deriving(deriving@),
    {
        let ghost start = out@;
        if deriving.len() == 0 {
            out.append("\n");
        } else {
            out.append(" deriving (");
            let mut k: usize = 0;
            assert(out@ =~= start + " deriving ("@ + format_derives(deriving@.take(0)));
            while k < deriving.len()
                invariant
                    k <= deriving.len(),
                    out@ == start + " deriving ("@ + format_derives(deriving@.take(k as int)),
                decreases deriving.len() - k,
            {
                if k > 0 {
                    out.append(", ");
                }
                let word = deriving[k].render();
                out.append(word.as_str());
                proof {
                    assert(deriving@.take(k + 1).drop_last() =~= deriving@.take(k as int));
                    assert(out@ =~= start + " deriving ("@ + format_derives(
                        deriving@.take(k + 1),
                    ));
                }
                k += 1;
            }
            assert(deriving@.take(k as int) =~= deriving@);
            out.append(")\n");
            assert(out@ =~= start + format_deriving(deriving@));
        }
    }

    fn print_function_statement(
        out: &mut String,
        fm: &FunctionModifier,
        name: &String,
        p: &Vec<Parameter>,
        dt: &DataTypeStatement,
        pad: &String,
    )
        ensures
            final(out)@ == old(out)@ + format_function(
                *fm,
                name@,
                parameters_view(p@),
                dt@,
                pad@,
            ),
    {
        let ghost start = out@;
        LampFmt::print_spaces(out, pad);
        if *fm != FunctionModifier::Nothing {
            let word = fm.render();
            out.append(word.as_str());
            out.append(" ");
        }
        out.append(name.as_str());
        out.append("(");
        let ghost head = out@;
        let ghost all = parameters_view(p@);
        let mut k: usize = 0;
        assert(out@ =~= head + format_parameters(all.take(0)));
        while k < p.len()
            invariant
                k <= p.len(),
                all == parameters_view(p@),
                out@ == head + format_parameters(all.take(k as int)),
            decreases p.len() - k,
        {
            if k > 0 {
                out.append(", ");
            }
            out.append(p[k].ident.value.as_str());
            out.append(": ");
            let ty = p[k].data_type.render();
            out.append(ty.as_str());
            proof {
                assert(all.take(k + 1).drop_last() =~= all.take(k as int));
                assert(all.take(k + 1).last() == p@[k as int]@);
                assert(out@ =~= head + format_parameters(all.take(k + 1)));
            }
            k += 1;
        }
        assert(all.take(k as int) =~= all);
        out.append(")");
        match dt {
            DataTypeStatement::Nothing => {},
            _ => {
                out.append(": ");
                let ty = dt.render();
                out.append(ty.as_str());
            },
        }
        out.append(";\n");
        assert(out@ =~= start + format_function(*fm, name@, parameters_view(p@), dt@, pad@));
    }

    fn print_block_statement(
        out: &mut String,
        block: &BlockStatement,
        pad: &String,
        Ghost(depth): Ghost<nat>,
    )
        requires
            pad@ == spaces(depth),
        ensures
            final(out)@ == old(out)@ + format_block(block@.statements, depth + 1),
        decreases block, 0nat,
    {
        let ghost start = out@;
        let ghost all = block@.statements;
        let inner = pad.clone().concat("    ");
        let mut k: usize = 0;
        assert(out@ =~= start + format_block(all.take(0), depth + 1));
        while k < block.statements.len()
            invariant
                k <= block.statements.len(),
                all == block@.statements,
                inner@ == spaces(depth + 1),
                out@ == start + format_block(all.take(k as int), depth + 1),
            decreases block.statements.len() - k,
        {
            let ghost before = out@;
            LampFmt::print_statement(out, &block.statements[k], &inner, Ghost(depth + 1));
            proof {
                assert(all.take(k + 1).drop_last() =~= all.take(k as int));
                assert(all.take(k + 1).last() == block.statements[k as int]@);
                assert(out@ =~= start + format_block(all.take(k + 1), depth + 1));
            }
            k += 1;
        }
        assert(all.take(k as int) =~= all);
    }

    fn print_spaces(out: &mut String, pad: &String)
        ensures
            final(out)@ == old(out)@ + pad@,
    {
        out.append(pad.as_str());
    }

    fn print_newline(out: &mut String)
        ensures
            final(out)@ == old(out)@ + "\n"@,
    {
        out.append("\n");
    }
}

} // verus!
