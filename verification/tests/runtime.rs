use ruspy::ast::node::{AstBinaryOp, AstExpr, AstScope};
use ruspy::lexer::token::TokenLiteral;
use ruspy::lexer::Lexer;
use ruspy::runtime::value::{AsBool, AsNumber, AsString, RuntimeError, RuntimeValue};
use ruspy::runtime::Scope;

fn parse(source: &str) -> AstScope {
    AstScope::from_tokens(Lexer::from_str(source).unwrap()).unwrap()
}

fn run(source: &str) -> Scope {
    let mut scope = Scope::new();
    scope.run(&parse(source)).unwrap();
    scope
}

fn read(scope: &Scope, name: &str) -> RuntimeValue {
    scope
        .visit_expr(&AstExpr::Ident(String::from(name)))
        .unwrap()
}

fn eval(source: &str) -> RuntimeValue {
    let program = format!("result = {source}");
    read(&run(&program), "result")
}

fn text(s: &str) -> RuntimeValue {
    RuntimeValue::String(String::from(s))
}

fn name(s: &str) -> String {
    String::from(s)
}

#[test]
fn subtraction_groups_to_the_right() {
    assert_eq!(eval("10 - 3 - 2"), RuntimeValue::Number(9));
}

#[test]
fn precedence_of_multiplication() {
    assert_eq!(eval("2 + 3 * 4"), RuntimeValue::Number(14));
    assert_eq!(eval("2 * 3 + 4"), RuntimeValue::Number(10));
}

#[test]
fn assigned_variable_reads_back_and_unbound_reads_nil() {
    let scope = run("a = 1");
    assert_eq!(read(&scope, "a"), RuntimeValue::Number(1));
    assert_eq!(read(&scope, "b"), RuntimeValue::Nil);
    assert!(scope.get_variable(&name("b")).is_none());
}

#[test]
fn conditional_shares_the_scope() {
    let scope = run("if True: a = 1");
    assert_eq!(read(&scope, "a"), RuntimeValue::Number(1));
}

#[test]
fn else_branch_runs_when_the_test_fails() {
    let scope = run("if False:\n a=1\nelse:\n a=2");
    assert_eq!(read(&scope, "a"), RuntimeValue::Number(2));
}

#[test]
fn elif_chain_picks_the_first_branch_that_holds() {
    let source = "x = 0\nif x:\n  r = 1\nelif \"s\":\n  r = 2\nelse:\n  r = 3";
    assert_eq!(read(&run(source), "r"), RuntimeValue::Number(2));
    let source = "if nil:\n  r = 1\nelif 0:\n  r = 2\nelse:\n  r = 3";
    assert_eq!(read(&run(source), "r"), RuntimeValue::Number(3));
    let source = "if nil:\n  r = 1\nelif 0:\n  r = 2";
    assert_eq!(read(&run(source), "r"), RuntimeValue::Nil);
}

#[test]
fn string_coercions() {
    assert_eq!(eval("1 + \"x\""), text("1x"));
    assert_eq!(eval("\"ab\" * 3"), text("ababab"));
    assert_eq!(eval("3 * \"ab\""), text("ababab"));
    assert_eq!(eval("0 - 1 * \"ab\""), RuntimeValue::Nil);
    assert_eq!(eval("\"x\" + True"), text("xTrue"));
    let minus_one = RuntimeValue::Number(-1);
    assert_eq!(
        RuntimeValue::binary_op(AstBinaryOp::Mul, &minus_one, &text("ab")),
        Ok(text(""))
    );
    assert_eq!(
        RuntimeValue::binary_op(AstBinaryOp::Mul, &text("ab"), &minus_one),
        Ok(text(""))
    );
}

#[test]
fn concatenation_renders_every_kind() {
    assert_eq!(eval("\"a\" + nil"), text("anil"));
    assert_eq!(eval("nil + \"a\""), text("nila"));
    assert_eq!(eval("False + \"a\""), text("Falsea"));
    assert_eq!(eval("\"a\" + 12"), text("a12"));
    assert_eq!(eval("\"a\" + \"b\""), text("ab"));
    assert_eq!(
        RuntimeValue::binary_op(
            AstBinaryOp::Add,
            &RuntimeValue::Number(i64::MIN),
            &text("!")
        ),
        Ok(text("-9223372036854775808!"))
    );
    assert_eq!(
        RuntimeValue::binary_op(AstBinaryOp::Add, &text(""), &RuntimeValue::Number(-405)),
        Ok(text("-405"))
    );
    assert_eq!(
        RuntimeValue::binary_op(AstBinaryOp::Add, &text(""), &RuntimeValue::Number(0)),
        Ok(text("0"))
    );
}

#[test]
fn string_times_truth_value() {
    assert_eq!(eval("\"ab\" * True"), text("ab"));
    assert_eq!(eval("True * \"ab\""), text("ab"));
    assert_eq!(eval("\"ab\" * False"), text(""));
    assert_eq!(eval("False * \"ab\""), text(""));
    assert_eq!(eval("\"ab\" * 0"), text(""));
}

#[test]
fn truth_values_count_as_numbers() {
    assert_eq!(eval("True + True"), RuntimeValue::Number(2));
    assert_eq!(eval("False + 5"), RuntimeValue::Number(5));
    assert_eq!(eval("5 + True"), RuntimeValue::Number(6));
    assert_eq!(eval("True - 5"), RuntimeValue::Number(-4));
    assert_eq!(eval("5 * False"), RuntimeValue::Number(0));
    assert_eq!(eval("7 / True"), RuntimeValue::Number(7));
    assert_eq!(eval("False / True"), RuntimeValue::Number(0));
}

#[test]
fn other_combinations_give_nil() {
    assert_eq!(eval("nil + nil"), RuntimeValue::Nil);
    assert_eq!(eval("nil + 1"), RuntimeValue::Nil);
    assert_eq!(eval("1 - nil"), RuntimeValue::Nil);
    assert_eq!(eval("\"a\" - 1"), RuntimeValue::Nil);
    assert_eq!(eval("\"a\" / \"b\""), RuntimeValue::Nil);
    assert_eq!(eval("\"a\" * \"b\""), RuntimeValue::Nil);
    assert_eq!(eval("\"a\" * nil"), RuntimeValue::Nil);
    assert_eq!(eval("nil * True"), RuntimeValue::Nil);
}

#[test]
fn division_rounds_toward_zero() {
    let number = RuntimeValue::Number;
    let div = |a: i64, b: i64| RuntimeValue::binary_op(AstBinaryOp::Div, &number(a), &number(b));
    assert_eq!(div(7, 2), Ok(number(3)));
    assert_eq!(div(-7, 2), Ok(number(-3)));
    assert_eq!(div(7, -2), Ok(number(-3)));
    assert_eq!(div(-7, -2), Ok(number(3)));
    assert_eq!(div(0, 5), Ok(number(0)));
    assert_eq!(div(i64::MIN, -1), Ok(number(i64::MIN)));
}

#[test]
fn arithmetic_wraps_around() {
    let number = RuntimeValue::Number;
    assert_eq!(
        RuntimeValue::binary_op(AstBinaryOp::Add, &number(i64::MAX), &number(1)),
        Ok(number(i64::MIN))
    );
    assert_eq!(
        RuntimeValue::binary_op(AstBinaryOp::Sub, &number(i64::MIN), &number(1)),
        Ok(number(i64::MAX))
    );
    assert_eq!(
        RuntimeValue::binary_op(AstBinaryOp::Mul, &number(i64::MAX), &number(2)),
        Ok(number(-2))
    );
    assert_eq!(
        RuntimeValue::binary_op(AstBinaryOp::Add, &number(i64::MAX), &RuntimeValue::Bool(true)),
        Ok(number(i64::MIN))
    );
}

#[test]
fn division_by_zero_is_fatal() {
    let mut scope = Scope::new();
    assert_eq!(
        scope.run(&parse("a = 1\nb = 1 / 0\nc = 3")),
        Err(RuntimeError::DivisionByZero)
    );
    assert_eq!(
        Scope::new().visit_expr(&AstExpr::BinaryOp {
            op: AstBinaryOp::Div,
            left: Box::new(AstExpr::Literal(TokenLiteral::Number(1))),
            right: Box::new(AstExpr::Literal(TokenLiteral::Bool(false))),
        }),
        Err(RuntimeError::DivisionByZero)
    );
    assert_eq!(
        RuntimeValue::binary_op(
            AstBinaryOp::Div,
            &RuntimeValue::Bool(true),
            &RuntimeValue::Number(0)
        ),
        Err(RuntimeError::DivisionByZero)
    );
}

#[test]
fn logical_not() {
    assert_eq!(eval("!nil"), RuntimeValue::Bool(true));
    assert_eq!(eval("!True"), RuntimeValue::Bool(false));
    assert_eq!(eval("!0"), RuntimeValue::Bool(true));
    assert_eq!(eval("!7"), RuntimeValue::Bool(false));
    assert_eq!(eval("!\"\""), RuntimeValue::Bool(true));
    assert_eq!(eval("!\"a\""), RuntimeValue::Bool(false));
}

#[test]
fn truthiness() {
    assert!(!RuntimeValue::Nil.as_bool());
    assert!(RuntimeValue::Bool(true).as_bool());
    assert!(!RuntimeValue::Bool(false).as_bool());
    assert!(RuntimeValue::Number(-1).as_bool());
    assert!(!RuntimeValue::Number(0).as_bool());
    assert!(text("x").as_bool());
    assert!(!text("").as_bool());
    assert_eq!(true.as_num(), 1);
    assert_eq!(false.as_num(), 0);
    assert_eq!(true.as_string(), "True");
    assert_eq!(false.as_string(), "False");
    assert_eq!(RuntimeValue::default(), RuntimeValue::Nil);
}

#[test]
fn global_shares_the_cell_of_the_parent() {
    let mut root = Scope::new();
    let cell = root.set_variable(name("x"), RuntimeValue::Number(1));
    let mut function = root.child(true);
    function.visit_global(&vec![name("x")]);
    assert_eq!(function.get_variable(&name("x")), Some(cell));
    assert_eq!(
        function.set_variable(name("x"), RuntimeValue::Number(2)),
        cell
    );
    let root = function.parent();
    assert_eq!(read(&root, "x"), RuntimeValue::Number(2));
    assert_eq!(root.value(cell), Some(RuntimeValue::Number(2)));
}

#[test]
fn function_boundary_keeps_assignments_local() {
    let mut root = Scope::new();
    let outer = root.set_variable(name("x"), RuntimeValue::Number(1));
    let mut function = root.child(true);
    // Reads see through the boundary.
    assert_eq!(read(&function, "x"), RuntimeValue::Number(1));
    let inner = function.set_variable(name("x"), RuntimeValue::Number(2));
    assert_ne!(inner, outer);
    assert_eq!(read(&function, "x"), RuntimeValue::Number(2));
    let root = function.parent();
    assert_eq!(read(&root, "x"), RuntimeValue::Number(1));
}

#[test]
fn plain_child_assigns_to_the_scope_above() {
    let mut root = Scope::new();
    let outer = root.set_variable(name("x"), RuntimeValue::Number(1));
    let mut block = root.child(false);
    assert_eq!(block.set_variable(name("x"), RuntimeValue::Number(2)), outer);
    block.set_variable(name("y"), RuntimeValue::Number(3));
    let root = block.parent();
    assert_eq!(read(&root, "x"), RuntimeValue::Number(2));
    assert_eq!(read(&root, "y"), RuntimeValue::Number(3));
}

#[test]
fn global_creates_a_missing_variable_as_nil() {
    let root = Scope::new();
    let mut function = root.child(true);
    function.visit_global(&vec![name("x"), name("y")]);
    let x = function.get_variable(&name("x")).unwrap();
    assert_eq!(function.value(x), Some(RuntimeValue::Nil));
    function.set_variable(name("y"), text("set"));
    let root = function.parent();
    assert_eq!(root.get_variable(&name("x")), Some(x));
    assert_eq!(read(&root, "y"), text("set"));
}

#[test]
fn global_in_the_root_does_nothing() {
    let scope = run("global a\nb = a");
    assert!(scope.get_variable(&name("a")).is_none());
    assert_eq!(read(&scope, "b"), RuntimeValue::Nil);
}

#[test]
fn the_root_is_its_own_parent() {
    let mut root = Scope::new();
    root.set_variable(name("x"), RuntimeValue::Number(1));
    let root = root.parent();
    assert_eq!(read(&root, "x"), RuntimeValue::Number(1));
}

#[test]
fn wrapped_value_gets_a_new_cell() {
    let mut scope = Scope::new();
    let a = RuntimeValue::Number(1).wrap(&mut scope);
    let b = text("two").wrap(&mut scope);
    assert_ne!(a, b);
    assert_eq!(scope.value(a), Some(RuntimeValue::Number(1)));
    assert_eq!(scope.value(b), Some(text("two")));
    assert_eq!(
        scope.value(ruspy::runtime::value::RuntimeVariable(b.0 + 1)),
        None
    );
}

#[test]
fn statements_run_one_by_one() {
    let mut scope = Scope::new();
    let program = parse("a = 2\nb = a * 3\na = b - a\n");
    for statement in &program.0 {
        scope.visit_stmt(statement).unwrap();
    }
    assert_eq!(read(&scope, "a"), RuntimeValue::Number(4));
    assert_eq!(read(&scope, "b"), RuntimeValue::Number(6));
    scope
        .visit_var_decl(&name("c"), &AstExpr::Ident(name("b")))
        .unwrap();
    assert_eq!(read(&scope, "c"), RuntimeValue::Number(6));
    let body = parse("d = 1");
    let otherwise = Some(parse("d = 2"));
    scope
        .visit_conditional(&AstExpr::Ident(name("missing")), &body, &otherwise)
        .unwrap();
    assert_eq!(read(&scope, "d"), RuntimeValue::Number(2));
    assert_eq!(
        scope.visit_expr_binop(
            AstBinaryOp::Sub,
            &AstExpr::Ident(name("b")),
            &AstExpr::Ident(name("d"))
        ),
        Ok(RuntimeValue::Number(4))
    );
}

#[test]
fn statements_after_nested_blocks_run_at_their_own_level() {
    let source = "p = False\nif p:\n  if p:\n    x = 1\n  y = 2\nz = 3\nz";
    let scope = run(source);
    assert_eq!(read(&scope, "x"), RuntimeValue::Nil);
    assert_eq!(read(&scope, "y"), RuntimeValue::Nil);
    assert_eq!(read(&scope, "z"), RuntimeValue::Number(3));
    let source = "p = True\nq = 0\nif p:\n  if q:\n    x = 1\n  y = 2\nz = 3";
    let scope = run(source);
    assert_eq!(read(&scope, "x"), RuntimeValue::Nil);
    assert_eq!(read(&scope, "y"), RuntimeValue::Number(2));
    assert_eq!(read(&scope, "z"), RuntimeValue::Number(3));
}
