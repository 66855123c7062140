//! Lowering to JavaScript.
use super::{emitted, CompileError, CompileResult, Compiler, Lowering};
use crate::ast::node::{
    AstBinaryOp, AstExpr, AstScope, AstUnaryOp, ExprModel, StatementModel,
};
use crate::common::text::{number_text, number_to_string};
use crate::lexer::token::{LiteralModel, TokenLiteral};
use vstd::prelude::*;
use vstd::string::*;

verus! {

/// The text that `std`'s `Debug` writes for a string: the string in double
/// quotes, with the characters that cannot stand there as they are escaped.
pub uninterp spec fn debug_text(s: Seq<char>) -> Seq<char>;

/// Formats a string with `std`'s `Debug` (`{:?}`), whose output depends on
/// nothing but the characters of the string.
#[verifier::external_body]
fn debug_string(s: &str) -> (r: String)
    ensures
        r@ == debug_text(s@),
{
    format!("{s:?}")
}

/// The sign of a binary operator.
pub open spec fn js_operator(op: AstBinaryOp) -> Seq<char> {
    match op {
        AstBinaryOp::Add => seq!['+'],
        AstBinaryOp::Div => seq!['/'],
        AstBinaryOp::Mul => seq!['*'],
        AstBinaryOp::Sub => seq!['-'],
    }
}

/// The text of a literal.
pub open spec fn js_literal(literal: LiteralModel) -> Result<Seq<char>, CompileError> {
    match literal {
        LiteralModel::Nil => Err(CompileError::Nil),
        LiteralModel::Bool(true) => Ok("true"@),
        LiteralModel::Bool(false) => Ok("false"@),
        LiteralModel::Number(n) => Ok(number_text(n as int)),
        LiteralModel::String(s) => Ok(debug_text(s)),
    }
}

/// The text of an expression: operands and operators in the order of the
/// tree, with one space on each side of a binary operator and one after a
/// unary one.
pub open spec fn js_expr(expr: ExprModel) -> Result<Seq<char>, CompileError>
    decreases expr,
{
    match expr {
        ExprModel::BinaryOp { op, left, right } => match js_expr(*left) {
            Err(e) => Err(e),
            Ok(l) => match js_expr(*right) {
                Err(e) => Err(e),
                Ok(r) => Ok(l + seq![' '] + js_operator(op) + seq![' '] + r),
            },
        },
        ExprModel::Ident(name) => Ok(name),
        ExprModel::Literal(literal) => js_literal(literal),
        ExprModel::UnaryOp { op: AstUnaryOp::Not, right } => match js_expr(*right) {
            Err(e) => Err(e),
            Ok(r) => Ok(seq!['!', ' '] + r),
        },
    }
}

/// The text of an assignment: a `let` declaration.
pub open spec fn js_var(name: Seq<char>, value: ExprModel) -> Result<Seq<char>, CompileError> {
    match js_expr(value) {
        Err(e) => Err(e),
        Ok(v) => Ok("let "@ + name + " = "@ + v),
    }
}

/// The text of a statement. A `global` statement lowers to nothing.
pub open spec fn js_statement(statement: StatementModel) -> Result<Seq<char>, CompileError> {
    match statement {
        StatementModel::Conditional { .. } => Err(CompileError::Conditional),
        StatementModel::Expresion(value) => js_expr(value),
        StatementModel::Global(_) => Ok(Seq::empty()),
        StatementModel::VariableDeclaration(name, value) => js_var(name, value),
    }
}

/// The text of a block: each statement, followed by a semicolon and a line
/// end.
pub open spec fn js_scope(block: Seq<StatementModel>) -> Result<Seq<char>, CompileError>
    decreases block.len(),
{
    if block.len() == 0 {
        Ok(Seq::empty())
    } else {
        match js_scope(block.drop_last()) {
            Err(e) => Err(e),
            Ok(before) => match js_statement(block.last()) {
                Err(e) => Err(e),
                Ok(code) => Ok(before + code + seq![';', '\n']),
            },
        }
    }
}

/// The lowering to JavaScript.
pub struct JsCompiler;

impl Compiler for JsCompiler {
    open spec fn lowering() -> Lowering {
        Lowering {
            expr: |expr: ExprModel| js_expr(expr),
            global: |names: Seq<Seq<char>>| Ok(Seq::empty()),
            var: |name: Seq<char>, value: ExprModel| js_var(name, value),
            literal: |literal: LiteralModel| js_literal(literal),
        }
    }

    fn visit_scope(&mut self, buf: &mut String, scope: &AstScope) -> (r: CompileResult)
        ensures
            emitted(r, old(buf)@, final(buf)@, js_scope(scope@)),
    {
        let mut i: usize = 0;
        let ghost block = scope@;
        while i < scope.0.len()
            invariant
                i <= scope.0.len(),
                block == scope@,
                emitted(Ok(()), old(buf)@, buf@, js_scope(block.take(i as int))),
            decreases scope.0.len() - i,
        {
            let ghost done = js_scope(block.take(i as int)).unwrap();
            let ghost mid = buf@;
            proof {
                assert(block.take(i as int + 1).drop_last() =~= block.take(i as int));
                lemma_js_scope_prefix(block, i as int + 1);
            }
            self.visit_stmt(buf, &scope.0[i])?;
            buf.push(';');
            buf.push('\n');
            proof {
                let code = js_statement(scope.0[i as int]@).unwrap();
                assert(mid + code + seq![';', '\n'] =~= (mid + code).push(';').push('\n'));
                assert(old(buf)@ + (done + code + seq![';', '\n']) =~= (old(buf)@ + done) + code
                    + seq![';', '\n']);
            }
            i += 1;
        }
        assert(block.take(scope.0.len() as int) =~= block);
        Ok(())
    }

    fn visit_expr(&mut self, buf: &mut String, expr: &AstExpr) -> (r: CompileResult)
        ensures
            emitted(r, old(buf)@, final(buf)@, js_expr(expr@)),
        decreases expr,
    {
        match expr {
            AstExpr::BinaryOp { op, left, right } => {
                self.visit_expr(buf, left)?;
                buf.push(' ');
                buf.push(
                    match op {
                        AstBinaryOp::Add => '+',
                        AstBinaryOp::Div => '/',
                        AstBinaryOp::Mul => '*',
                        AstBinaryOp::Sub => '-',
                    },
                );
                buf.push(' ');
                self.visit_expr(buf, right)?;
                proof {
                    let l = js_expr(left@).unwrap();
                    let r = js_expr(right@).unwrap();
                    assert(buf@ =~= old(buf)@ + (l + seq![' '] + js_operator(*op) + seq![' ']
                        + r));
                }
                Ok(())
            },
            AstExpr::Ident(var) => {
                buf.append(var.as_str());
                Ok(())
            },
            AstExpr::Literal(literal) => self.visit_literal(buf, literal),
            AstExpr::UnaryOp { op: AstUnaryOp::Not, right } => {
                buf.push('!');
                buf.push(' ');
                self.visit_expr(buf, right)?;
                proof {
                    let r = js_expr(right@).unwrap();
                    assert(buf@ =~= old(buf)@ + (seq!['!', ' '] + r));
                }
                Ok(())
            },
        }
    }

    fn visit_global(&mut self, buf: &mut String, vars: &Vec<String>) -> (r: CompileResult)
        ensures
            r.is_ok(),
            final(buf)@ == old(buf)@,
    {
        assert(buf@ + Seq::<char>::empty() =~= buf@);
        Ok(())
    }

    fn visit_var(&mut self, buf: &mut String, var: &String, expr: &AstExpr) -> (r: CompileResult)
        ensures
            emitted(r, old(buf)@, final(buf)@, js_var(var@, expr@)),
    {
        buf.append("let ");
        buf.append(var.as_str());
        buf.append(" = ");
        self.visit_expr(buf, expr)?;
        proof {
            let v = js_expr(expr@).unwrap();
            assert(buf@ =~= old(buf)@ + ("let "@ + var@ + " = "@ + v));
        }
        Ok(())
    }

    fn visit_literal(&mut self, buf: &mut String, literal: &TokenLiteral) -> (r: CompileResult)
        ensures
            emitted(r, old(buf)@, final(buf)@, js_literal(literal@)),
    {
        match literal {
            TokenLiteral::Nil => {
                return Err(CompileError::Nil);
            },
            TokenLiteral::Bool(true) => buf.append("true"),
            TokenLiteral::Bool(false) => buf.append("false"),
            TokenLiteral::Number(n) => buf.append(number_to_string(*n).as_str()),
            TokenLiteral::String(s) => buf.append(debug_string(s.as_str()).as_str()),
        }
        Ok(())
    }
}

/// Where a block lowers, so does each of its beginnings.
proof fn lemma_js_scope_prefix(block: Seq<StatementModel>, n: int)
    requires
        0 <= n <= block.len(),
    ensures
        js_scope(block).is_ok() ==> js_scope(block.take(n)).is_ok(),
        js_scope(block.take(n)) matches Err(e) ==> js_scope(block) == Err::<
            Seq<char>,
            CompileError,
        >(e),
    decreases block.len() - n,
{
    if n < block.len() {
        lemma_js_scope_prefix(block, n + 1);
        assert(block.take(n + 1).drop_last() =~= block.take(n));
    } else {
        assert(block.take(n) =~= block);
    }
}

} // verus!
