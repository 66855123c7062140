//! Lowering a syntax tree to the text of another language.
pub mod js;

use crate::ast::node::{
    names_model, AstExpr, AstScope, AstStatement, ExprModel, StatementModel,
};
use crate::lexer::token::{LiteralModel, TokenLiteral};
use vstd::prelude::*;

verus! {

/// What of a program cannot be lowered.
#[derive(Clone, Copy, Debug, PartialEq, Eq, Structural)]
pub enum CompileError {
    /// Conditionals have no lowering yet.
    Conditional,
    /// The literal `nil` has no lowering yet.
    Nil,
}

pub type CompileResult = Result<(), CompileError>;

/// Whether a lowering that ended with `r` kept what the buffer held: where
/// it succeeded, the buffer starts with its former text.
pub open spec fn extends(r: CompileResult, before: Seq<char>, after: Seq<char>) -> bool {
    r.is_ok() ==> before.is_prefix_of(after)
}

/// Whether `r` and the buffer after a call are what lowering to `code`
/// gives: the code added at the end of the buffer, or the error.
pub open spec fn emitted(
    r: CompileResult,
    before: Seq<char>,
    after: Seq<char>,
    code: Result<Seq<char>, CompileError>,
) -> bool {
    match code {
        Ok(text) => r.is_ok() && after == before + text,
        Err(e) => r == Err::<(), CompileError>(e),
    }
}

/// The text of a node, or why it has none.
pub type Code = Result<Seq<char>, CompileError>;

/// What a lowering makes of the nodes that it lowers in its own way: the
/// text of an expression, of the names of a `global` statement, of the
/// assignment of a value to a name, and of a literal.
pub struct Lowering {
    pub expr: spec_fn(ExprModel) -> Code,
    pub global: spec_fn(Seq<Seq<char>>) -> Code,
    pub var: spec_fn(Seq<char>, ExprModel) -> Code,
    pub literal: spec_fn(LiteralModel) -> Code,
}

/// The text of a statement, which goes by the kind of the statement. A
/// conditional has none.
pub open spec fn statement_code(lowering: Lowering, statement: StatementModel) -> Code {
    match statement {
        StatementModel::Conditional { .. } => Err(CompileError::Conditional),
        StatementModel::Expresion(value) => (lowering.expr)(value),
        StatementModel::Global(names) => (lowering.global)(names),
        StatementModel::VariableDeclaration(name, value) => (lowering.var)(name, value),
    }
}

/// The texts of the statements of a block, one after the other with nothing
/// between them, or the error of the first statement that has no text.
pub open spec fn block_code(lowering: Lowering, block: Seq<StatementModel>) -> Code
    decreases block.len(),
{
    if block.len() == 0 {
        Ok(Seq::empty())
    } else {
        match block_code(lowering, block.drop_last()) {
            Err(e) => Err(e),
            Ok(before) => match statement_code(lowering, block.last()) {
                Err(e) => Err(e),
                Ok(code) => Ok(before + code),
            },
        }
    }
}

/// A statement that has no text leaves the blocks that hold it without text.
pub proof fn lemma_block_code_stops(lowering: Lowering, block: Seq<StatementModel>, n: int)
    requires
        0 <= n <= block.len(),
    ensures
        block_code(lowering, block.take(n)) matches Err(e) ==> block_code(lowering, block)
            == Err::<Seq<char>, CompileError>(e),
    decreases block.len() - n,
{
    if n < block.len() {
        lemma_block_code_stops(lowering, block, n + 1);
        assert(block.take(n + 1).drop_last() =~= block.take(n));
    } else {
        assert(block.take(n) =~= block);
    }
}

/// A lowering of the syntax tree to text. Each method adds the text of one
/// kind of node at the end of `buf`.
///
/// What the text of an expression, of a `global` statement, of an assignment
/// and of a literal is, the lowering says once for all in [`Self::lowering`]:
/// it depends on the node alone. Statements are lowered by their kind.
/// Blocks are lowered statement by statement unless the lowering has its own
/// way with them.
pub trait Compiler {
    /// The texts that this lowering gives. A lowering that is to be
    /// verified says what they are; left as it is, nothing is known of them.
    open spec fn lowering() -> Lowering {
        arbitrary()
    }

    /// Lowers the statements of a block, one after the other, up to the
    /// first one that cannot be lowered.
    fn visit_scope(&mut self, buf: &mut String, scope: &AstScope) -> (r: CompileResult)
        ensures
            extends(r, old(buf)@, final(buf)@),
        default_ensures
            emitted(r, old(buf)@, final(buf)@, block_code(Self::lowering(), scope@)),
    {
        let mut i: usize = 0;
        let ghost block = scope@;
        while i < scope.0.len()
            invariant
                i <= scope.0.len(),
                block == scope@,
                emitted(
                    Ok(()),
                    old(buf)@,
                    buf@,
                    block_code(Self::lowering(), block.take(i as int)),
                ),
            decreases scope.0.len() - i,
        {
            let ghost done = block_code(Self::lowering(), block.take(i as int)).unwrap();
            proof {
                assert(block.take(i as int + 1).drop_last() =~= block.take(i as int));
                lemma_block_code_stops(Self::lowering(), block, i as int + 1);
            }
            self.visit_stmt(buf, &scope.0[i])?;
            proof {
                let code = statement_code(Self::lowering(), scope.0[i as int]@).unwrap();
                assert(old(buf)@ + (done + code) =~= (old(buf)@ + done) + code);
            }
            i += 1;
        }
        assert(block.take(scope.0.len() as int) =~= block);
        Ok(())
    }

    /// Lowers a statement by its kind. A conditional is refused.
    fn visit_stmt(&mut self, buf: &mut String, stmt: &AstStatement) -> (r: CompileResult)
        ensures
            emitted(r, old(buf)@, final(buf)@, statement_code(Self::lowering(), stmt@)),
    {
        match stmt {
            AstStatement::Conditional { .. } => Err(CompileError::Conditional),
            AstStatement::Expresion(expr) => self.visit_expr(buf, expr),
            AstStatement::Global(vars) => self.visit_global(buf, vars),
            AstStatement::VariableDeclaration(var, expr) => self.visit_var(buf, var, expr),
        }
    }

    /// Lowers an expression.
    fn visit_expr(&mut self, buf: &mut String, expr: &AstExpr) -> (r: CompileResult)
        ensures
            emitted(r, old(buf)@, final(buf)@, (Self::lowering().expr)(expr@)),
    ;

    /// Lowers a `global` statement.
    fn visit_global(&mut self, buf: &mut String, vars: &Vec<String>) -> (r: CompileResult)
        ensures
            emitted(r, old(buf)@, final(buf)@, (Self::lowering().global)(names_model(vars@))),
    ;

    /// Lowers an assignment.
    fn visit_var(&mut self, buf: &mut String, var: &String, expr: &AstExpr) -> (r: CompileResult)
        ensures
            emitted(r, old(buf)@, final(buf)@, (Self::lowering().var)(var@, expr@)),
    ;

    /// Lowers a literal.
    fn visit_literal(&mut self, buf: &mut String, literal: &TokenLiteral) -> (r: CompileResult)
        ensures
            emitted(r, old(buf)@, final(buf)@, (Self::lowering().literal)(literal@)),
    ;
}

} // verus!
