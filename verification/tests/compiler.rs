use ruspy::ast::node::{AstExpr, AstScope};
use ruspy::compiler::js::JsCompiler;
use ruspy::compiler::{CompileError, CompileResult, Compiler};
use ruspy::lexer::token::TokenLiteral;
use ruspy::lexer::Lexer;

fn parse(source: &str) -> AstScope {
    AstScope::from_tokens(Lexer::from_str(source).unwrap()).unwrap()
}

fn lower(source: &str) -> Result<String, CompileError> {
    let mut output = String::new();
    JsCompiler
        .visit_scope(&mut output, &parse(source))
        .map(|_| output)
}

#[test]
fn assignments_become_let_declarations() {
    assert_eq!(
        lower("a = 1\nb = a + 2 * 3"),
        Ok(String::from("let a = 1;\nlet b = a + 2 * 3;\n"))
    );
}

#[test]
fn literals_and_operators() {
    assert_eq!(
        lower("True\nFalse\n!x\n8 / 2 - 1"),
        Ok(String::from("true;\nfalse;\n! x;\n8 / 2 - 1;\n"))
    );
}

#[test]
fn string_literals_are_quoted_and_escaped() {
    assert_eq!(lower("s = \"a b\""), Ok(String::from("let s = \"a b\";\n")));
    let mut output = String::from("x = ");
    JsCompiler
        .visit_literal(
            &mut output,
            &TokenLiteral::String(String::from("tab\there \"quoted\" \\")),
        )
        .unwrap();
    assert_eq!(output, "x = \"tab\\there \\\"quoted\\\" \\\\\"");
}

#[test]
fn global_lowers_to_an_empty_statement() {
    assert_eq!(lower("global a, b\na = 1"), Ok(String::from(";\nlet a = 1;\n")));
}

#[test]
fn conditionals_and_nil_cannot_be_lowered() {
    assert_eq!(lower("a = 1\nif a: b = 2"), Err(CompileError::Conditional));
    assert_eq!(lower("a = nil"), Err(CompileError::Nil));
    assert_eq!(lower("a = 1 + nil\nif a: b = 2"), Err(CompileError::Nil));
}

#[test]
fn pieces_are_added_at_the_end_of_the_buffer() {
    let mut output = String::from("// ");
    JsCompiler
        .visit_var(
            &mut output,
            &String::from("n"),
            &AstExpr::Literal(TokenLiteral::Number(-12)),
        )
        .unwrap();
    assert_eq!(output, "// let n = -12");
    JsCompiler.visit_global(&mut output, &vec![]).unwrap();
    JsCompiler
        .visit_expr(&mut output, &AstExpr::Ident(String::from("z")))
        .unwrap();
    assert_eq!(output, "// let n = -12z");
}

/// A lowering that only says which kind of node it met, and leaves blocks
/// and statements to the trait.
struct Kinds;

impl Compiler for Kinds {
    fn visit_expr(&mut self, buf: &mut String, expr: &AstExpr) -> CompileResult {
        match expr {
            AstExpr::Literal(literal) => self.visit_literal(buf, literal),
            _ => {
                buf.push('e');
                Ok(())
            }
        }
    }

    fn visit_global(&mut self, buf: &mut String, _vars: &Vec<String>) -> CompileResult {
        buf.push('g');
        Ok(())
    }

    fn visit_var(&mut self, buf: &mut String, _var: &String, expr: &AstExpr) -> CompileResult {
        buf.push('v');
        self.visit_expr(buf, expr)
    }

    fn visit_literal(&mut self, buf: &mut String, _literal: &TokenLiteral) -> CompileResult {
        buf.push('l');
        Ok(())
    }
}

#[test]
fn a_lowering_can_leave_blocks_and_statements_to_the_trait() {
    let mut output = String::from(">");
    Kinds
        .visit_scope(&mut output, &parse("global a\na = 1\na + 1\n2"))
        .unwrap();
    assert_eq!(output, ">gvlel");
    assert_eq!(
        Kinds.visit_scope(&mut output, &parse("1\nif a: b = 2")),
        Err(CompileError::Conditional)
    );
}
