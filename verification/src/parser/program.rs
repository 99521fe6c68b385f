//! A parsed program: its top-level statements in the order of the text.

use crate::parser::ast::{block_text, statements_view, Statement, StatementView};
use vstd::prelude::*;
use vstd::string::StringExecFns;

verus! {

/// The top-level statements of a text.
#[derive(Debug)]
pub struct Program {
    pub statements: Vec<Statement>,
}

impl View for Program {
    type V = Seq<StatementView>;

    open spec fn view(&self) -> Seq<StatementView> {
        statements_view(self.statements@)
    }
}

impl Program {
    /// The program without statements.
    pub fn new() -> (p: Program)
        ensures
            p@ == Seq::<StatementView>::empty(),
    {
        let p = Program { statements: Vec::new() };
        assert(p@ =~= Seq::<StatementView>::empty());
        p
    }

    /// The canonical texts of the statements, one after the other.
    pub fn render(&self) -> (r: String)
        ensures
            r@ == block_text(self@),
    {
        let mut out = String::new();
        let mut i: usize = 0;
        while i < self.statements.len()
            invariant
                i <= self.statements.len(),
                out@ == block_text(self@.take(i as int)),
            decreases self.statements.len() - i,
        {
            let text = self.statements[i].render();
            out.append(text.as_str());
            proof {
                assert(self@.take(i + 1).drop_last() =~= self@.take(i as int));
                assert(self@.take(i + 1).last() == self.statements[i as int]@);
            }
            i += 1;
        }
        assert(self@.take(i as int) =~= self@);
        out
    }
}

impl Default for Program {
    fn default() -> (p: Program)
        ensures
            p@ == Seq::<StatementView>::empty(),
    {
        Program::new()
    }
}

impl Clone for Program {
    fn clone(&self) -> (p: Program)
        ensures
            p@ == self@,
    {
        let mut statements: Vec<Statement> = Vec::new();
        let mut i: usize = 0;
        while i < self.statements.len()
            invariant
                i <= self.statements.len(),
                statements.len() == i,
                statements_view(statements@) == self@.take(i as int),
            decreases self.statements.len() - i,
        {
            let ghost before = statements@;
            statements.push(self.statements[i].clone());
            assert(statements_view(statements@) =~= self@.take(i + 1)) by {
                assert forall|k: int| 0 <= k < i implies statements_view(statements@)[k]
                    == self@[k] by {
                    assert(statements_view(before)[k] == self@.take(i as int)[k]);
                }
            }
            i += 1;
        }
        assert(self@.take(i as int) =~= self@);
        Program { statements }
    }
}

} // verus!
