use ruspy::ast::node::{AstBinaryOp, AstExpr, AstScope, AstStatement, AstUnaryOp};
use ruspy::ast::source::{Expected, ParseError, SourceAst};
use ruspy::lexer::span::Span;
use ruspy::lexer::token::{SpannedToken, Token, TokenKeyword, TokenLiteral, TokenPunctuation};
use ruspy::lexer::Lexer;
use std::collections::VecDeque;

fn create_scope(content: &str) -> AstScope {
    AstScope::from_tokens(Lexer::from_str(content).unwrap()).unwrap()
}

fn parse_error(content: &str) -> ParseError {
    AstScope::from_tokens(Lexer::from_str(content).unwrap()).unwrap_err()
}

fn scope(statements: Vec<AstStatement>) -> AstScope {
    AstScope(statements)
}

fn ident(name: &str) -> AstExpr {
    AstExpr::Ident(String::from(name))
}

fn number(n: i64) -> AstExpr {
    AstExpr::Literal(TokenLiteral::Number(n))
}

fn boolean(b: bool) -> AstExpr {
    AstExpr::Literal(TokenLiteral::Bool(b))
}

fn bin_op(left: AstExpr, op: AstBinaryOp, right: AstExpr) -> AstExpr {
    AstExpr::BinaryOp {
        op,
        left: Box::new(left),
        right: Box::new(right),
    }
}

fn not(right: AstExpr) -> AstExpr {
    AstExpr::UnaryOp {
        op: AstUnaryOp::Not,
        right: Box::new(right),
    }
}

fn assign(name: &str, value: AstExpr) -> AstStatement {
    AstStatement::VariableDeclaration(String::from(name), Box::new(value))
}

fn expr_stmt(value: AstExpr) -> AstStatement {
    AstStatement::Expresion(Box::new(value))
}

fn if_stmt(
    test: AstExpr,
    body: Vec<AstStatement>,
    otherwise: Option<Vec<AstStatement>>,
) -> AstStatement {
    AstStatement::Conditional {
        test: Box::new(test),
        body: scope(body),
        otherwise: otherwise.map(scope),
    }
}

#[test]
fn simple() {
    let res = create_scope("a = 1");
    assert_eq!(
        res,
        scope(vec![AstStatement::VariableDeclaration(
            String::from("a"),
            Box::new(number(1))
        )])
    )
}

#[test]
fn expression() {
    let res = create_scope("a + b * c - d / e");
    assert_eq!(
        res,
        scope(vec![AstStatement::Expresion(Box::new(bin_op(
            ident("a"),
            AstBinaryOp::Add,
            bin_op(
                bin_op(ident("b"), AstBinaryOp::Mul, ident("c")),
                AstBinaryOp::Sub,
                bin_op(ident("d"), AstBinaryOp::Div, ident("e"))
            )
        )))])
    )
}

#[test]
fn conditional() {
    let res = create_scope("if True:\n a = 1");
    assert_eq!(
        res,
        scope(vec![AstStatement::Conditional {
            test: Box::new(boolean(true)),
            body: scope(vec![AstStatement::VariableDeclaration(
                String::from("a"),
                Box::new(number(1))
            )]),
            otherwise: None
        }])
    )
}

#[test]
fn conditional_inline() {
    let res = create_scope("if True: a = 1");
    assert_eq!(
        res,
        scope(vec![AstStatement::Conditional {
            test: Box::new(boolean(true)),
            body: scope(vec![AstStatement::VariableDeclaration(
                String::from("a"),
                Box::new(number(1))
            )]),
            otherwise: None
        }])
    )
}

#[test]
fn conditional_else() {
    let res = create_scope("if True:\n a = 1\nelse:\n a = 2");
    assert_eq!(
        res,
        scope(vec![AstStatement::Conditional {
            test: Box::new(boolean(true)),
            body: scope(vec![AstStatement::VariableDeclaration(
                String::from("a"),
                Box::new(number(1))
            )]),
            otherwise: Some(scope(vec![AstStatement::VariableDeclaration(
                String::from("a"),
                Box::new(number(2))
            )]))
        }])
    )
}

#[test]
fn empty_program() {
    assert_eq!(create_scope(""), scope(vec![]));
    assert_eq!(create_scope("\n\n\n"), scope(vec![]));
}

#[test]
fn same_tier_operators_group_to_the_right() {
    assert_eq!(
        create_scope("10 - 3 - 2"),
        scope(vec![expr_stmt(bin_op(
            number(10),
            AstBinaryOp::Sub,
            bin_op(number(3), AstBinaryOp::Sub, number(2))
        ))])
    );
    assert_eq!(
        create_scope("8 / 4 * 2"),
        scope(vec![expr_stmt(bin_op(
            number(8),
            AstBinaryOp::Div,
            bin_op(number(4), AstBinaryOp::Mul, number(2))
        ))])
    );
}

#[test]
fn multiplicative_operators_bind_tighter() {
    assert_eq!(
        create_scope("2 + 3 * 4"),
        scope(vec![expr_stmt(bin_op(
            number(2),
            AstBinaryOp::Add,
            bin_op(number(3), AstBinaryOp::Mul, number(4))
        ))])
    );
    assert_eq!(
        create_scope("2 * 3 + 4"),
        scope(vec![expr_stmt(bin_op(
            bin_op(number(2), AstBinaryOp::Mul, number(3)),
            AstBinaryOp::Add,
            number(4)
        ))])
    );
}

#[test]
fn not_binds_to_the_next_primary() {
    assert_eq!(
        create_scope("!a + b"),
        scope(vec![expr_stmt(bin_op(
            not(ident("a")),
            AstBinaryOp::Add,
            ident("b")
        ))])
    );
    assert_eq!(
        create_scope("x = !!True"),
        scope(vec![assign("x", not(not(boolean(true))))])
    );
}

#[test]
fn statements_follow_line_ends() {
    assert_eq!(
        create_scope("a = 1\n\nb = a\n\"s\"\n"),
        scope(vec![
            assign("a", number(1)),
            assign("b", ident("a")),
            expr_stmt(AstExpr::Literal(TokenLiteral::String(String::from("s")))),
        ])
    );
}

#[test]
fn tokens_left_of_an_operator_beyond_the_operand_are_dropped() {
    assert_eq!(
        create_scope("a b + c"),
        scope(vec![expr_stmt(bin_op(
            ident("a"),
            AstBinaryOp::Add,
            ident("c")
        ))])
    );
}

#[test]
fn global_statement() {
    assert_eq!(
        create_scope("global a, b,c\nx = 1"),
        scope(vec![
            AstStatement::Global(vec![
                String::from("a"),
                String::from("b"),
                String::from("c")
            ]),
            assign("x", number(1)),
        ])
    );
    assert_eq!(
        create_scope("global a"),
        scope(vec![AstStatement::Global(vec![String::from("a")])])
    );
}

#[test]
fn nested_blocks_use_two_spaces_a_level() {
    let source = "if a:\n  b = 1\n  if c:\n    d = 2\n  e = 3\nf = 4";
    assert_eq!(
        create_scope(source),
        scope(vec![
            if_stmt(
                ident("a"),
                vec![
                    assign("b", number(1)),
                    if_stmt(ident("c"), vec![assign("d", number(2))], None),
                    assign("e", number(3)),
                ],
                None
            ),
            assign("f", number(4)),
        ])
    );
}

#[test]
fn blank_lines_inside_a_block_are_skipped() {
    let source = "if a:\n  b = 1\n\n  c = 2\n";
    assert_eq!(
        create_scope(source),
        scope(vec![if_stmt(
            ident("a"),
            vec![assign("b", number(1)), assign("c", number(2))],
            None
        )])
    );
}

#[test]
fn elif_is_a_block_of_one_conditional() {
    let source = "if a:\n  x = 1\nelif b:\n  x = 2\nelse:\n  x = 3";
    assert_eq!(
        create_scope(source),
        scope(vec![if_stmt(
            ident("a"),
            vec![assign("x", number(1))],
            Some(vec![if_stmt(
                ident("b"),
                vec![assign("x", number(2))],
                Some(vec![assign("x", number(3))])
            )])
        )])
    );
}

#[test]
fn statement_after_a_conditional_is_not_consumed_by_the_lookahead() {
    let source = "if a:\n  x = 1\ny = 2";
    assert_eq!(
        create_scope(source),
        scope(vec![
            if_stmt(ident("a"), vec![assign("x", number(1))], None),
            assign("y", number(2)),
        ])
    );
}

#[test]
fn end_of_input_in_an_expression() {
    assert_eq!(
        parse_error("a = "),
        ParseError {
            span: Span { from: 2, to: 2 },
            found: None,
            expected: Expected::Unspecified
        }
    );
    assert_eq!(
        parse_error("a +"),
        ParseError {
            span: Span { from: 0, to: 0 },
            found: None,
            expected: Expected::Unspecified
        }
    );
}

#[test]
fn lone_identifier_is_an_expression_statement() {
    assert_eq!(create_scope("a"), scope(vec![expr_stmt(ident("a"))]));
    assert_eq!(create_scope("a\n"), scope(vec![expr_stmt(ident("a"))]));
    assert_eq!(
        create_scope("a = 1\nb"),
        scope(vec![assign("a", number(1)), expr_stmt(ident("b"))])
    );
    assert_eq!(
        create_scope("if p: b"),
        scope(vec![if_stmt(ident("p"), vec![expr_stmt(ident("b"))], None)])
    );
    let tokens = Lexer::from_str("a").unwrap();
    let mut source = SourceAst::new(&tokens);
    assert_eq!(source.parse_statement(0), Ok(expr_stmt(ident("a"))));
    assert_eq!(source.pos, 1);
}

fn spanned(token: Token) -> SpannedToken {
    SpannedToken::new(Span { from: 0, to: 0 }, token)
}

#[test]
fn a_line_without_indentation_closes_every_open_block() {
    let expected = scope(vec![
        if_stmt(
            ident("p"),
            vec![if_stmt(ident("q"), vec![assign("x", number(1))], None)],
            None,
        ),
        assign("y", number(2)),
    ]);
    assert_eq!(create_scope("if p:\n  if q:\n    x = 1\ny = 2"), expected);
    assert_eq!(
        create_scope("if p:\n  if q:\n    x = 1\n\n\ny = 2"),
        expected
    );
    let tokens: VecDeque<SpannedToken> = [
        Token::Keyword(TokenKeyword::If),
        Token::Ident(String::from("p")),
        Token::Punctuation(TokenPunctuation::Colon),
        Token::Punctuation(TokenPunctuation::Newline),
        Token::Punctuation(TokenPunctuation::Indentation),
        Token::Keyword(TokenKeyword::If),
        Token::Ident(String::from("q")),
        Token::Punctuation(TokenPunctuation::Colon),
        Token::Punctuation(TokenPunctuation::Newline),
        Token::Punctuation(TokenPunctuation::Indentation),
        Token::Punctuation(TokenPunctuation::Indentation),
        Token::Ident(String::from("x")),
        Token::Punctuation(TokenPunctuation::Equal),
        Token::Literal(TokenLiteral::Number(1)),
        Token::Punctuation(TokenPunctuation::Newline),
        Token::Ident(String::from("y")),
        Token::Punctuation(TokenPunctuation::Equal),
        Token::Literal(TokenLiteral::Number(2)),
    ]
    .into_iter()
    .map(spanned)
    .collect();
    assert_eq!(AstScope::from_tokens(tokens), Ok(expected));
}

#[test]
fn a_line_closes_the_blocks_that_are_deeper_than_it() {
    let source = "if a:\n  if b:\n    if c:\n      x = 1\n  y = 2\nz = 3";
    assert_eq!(
        create_scope(source),
        scope(vec![
            if_stmt(
                ident("a"),
                vec![
                    if_stmt(
                        ident("b"),
                        vec![if_stmt(ident("c"), vec![assign("x", number(1))], None)],
                        None
                    ),
                    assign("y", number(2)),
                ],
                None
            ),
            assign("z", number(3)),
        ])
    );
}

#[test]
fn else_goes_with_the_conditional_of_its_own_level() {
    assert_eq!(
        create_scope("if p:\n  if q:\n    x = 1\nelse:\n  y = 2"),
        scope(vec![if_stmt(
            ident("p"),
            vec![if_stmt(ident("q"), vec![assign("x", number(1))], None)],
            Some(vec![assign("y", number(2))])
        )])
    );
    assert_eq!(
        create_scope("if p:\n  if q:\n    x = 1\n  else:\n    y = 2"),
        scope(vec![if_stmt(
            ident("p"),
            vec![if_stmt(
                ident("q"),
                vec![assign("x", number(1))],
                Some(vec![assign("y", number(2))])
            )],
            None
        )])
    );
}

#[test]
fn global_inside_a_block() {
    assert_eq!(
        create_scope("if p:\n  global a, b\n  a = 1\nc = 2"),
        scope(vec![
            if_stmt(
                ident("p"),
                vec![
                    AstStatement::Global(vec![String::from("a"), String::from("b")]),
                    assign("a", number(1)),
                ],
                None
            ),
            assign("c", number(2)),
        ])
    );
    let tokens = Lexer::from_str("a , b\nc").unwrap();
    let mut source = SourceAst::new(&tokens);
    assert_eq!(
        source.parse_global(),
        Ok(vec![String::from("a"), String::from("b")])
    );
    assert_eq!(source.pos, 3);
}

#[test]
fn the_end_of_a_block_reads_nothing() {
    let tokens = Lexer::from_str("x\n  \n y\nz").unwrap();
    let mut source = SourceAst::new(&tokens);
    source.pos = 1;
    assert!(!source.parse_pre_statement(2));
    assert_eq!(source.pos, 1);
    assert!(source.parse_pre_statement(1));
    assert_eq!(source.pos, 5);
    source.pos = 6;
    assert!(!source.parse_pre_statement(1));
    assert_eq!(source.pos, 6);
    assert_eq!(source.parse_scope(1), Ok(scope(vec![])));
    assert_eq!(source.pos, 6);
    assert!(source.parse_pre_statement(0));
    assert_eq!(source.pos, 7);
}

#[test]
fn unexpected_token_in_an_expression() {
    assert_eq!(
        parse_error("a = 1 + :"),
        ParseError {
            span: Span { from: 8, to: 9 },
            found: Some(Token::Punctuation(TokenPunctuation::Colon)),
            expected: Expected::Expression
        }
    );
}

#[test]
fn unexpected_token_at_the_start_of_a_statement() {
    assert_eq!(
        parse_error("else: a = 1"),
        ParseError {
            span: Span { from: 0, to: 4 },
            found: Some(Token::Keyword(TokenKeyword::Else)),
            expected: Expected::Unspecified
        }
    );
}

#[test]
fn conditional_without_colon() {
    assert_eq!(
        parse_error("if a\n  b = 1"),
        ParseError {
            span: Span { from: 4, to: 5 },
            found: Some(Token::Punctuation(TokenPunctuation::Newline)),
            expected: Expected::Token(Token::Punctuation(TokenPunctuation::Colon))
        }
    );
    assert_eq!(
        parse_error("if a"),
        ParseError {
            span: Span { from: 3, to: 3 },
            found: None,
            expected: Expected::Token(Token::Punctuation(TokenPunctuation::Colon))
        }
    );
}

#[test]
fn global_needs_names_and_commas() {
    assert_eq!(
        parse_error("global 1"),
        ParseError {
            span: Span { from: 7, to: 8 },
            found: Some(Token::Literal(TokenLiteral::Number(1))),
            expected: Expected::Ident
        }
    );
    assert_eq!(
        parse_error("global a b"),
        ParseError {
            span: Span { from: 9, to: 10 },
            found: Some(Token::Ident(String::from("b"))),
            expected: Expected::Comma
        }
    );
    assert_eq!(
        parse_error("global"),
        ParseError {
            span: Span { from: 0, to: 0 },
            found: None,
            expected: Expected::Ident
        }
    );
}

#[test]
fn cursor_reads_and_puts_back() {
    let tokens = Lexer::from_str("a = 1").unwrap();
    let mut source = SourceAst::new(&tokens);
    let first = source.peek().unwrap();
    assert_eq!(first.token.token, Token::Ident(String::from("a")));
    assert_eq!(source.pos, 1);
    first.recover(&mut source);
    assert_eq!(source.pos, 0);
    assert_eq!(source.last_offset, 0);
    let first = source.expect().unwrap();
    assert_eq!(first.span, Span { from: 0, to: 1 });
    let equal = source
        .expect_token(Token::Punctuation(TokenPunctuation::Equal))
        .unwrap();
    assert_eq!(equal.span, Span { from: 2, to: 3 });
    assert_eq!(source.last_offset, 2);
    let value = source
        .expect_match(Expected::Expression, |t| match &t.token {
            Token::Literal(TokenLiteral::Number(n)) => Some(*n),
            _ => None,
        })
        .unwrap();
    assert_eq!(value, 1);
    assert!(source.peek().is_none());
    assert_eq!(
        source.peek_expect().map(|p| p.token.span).unwrap_err(),
        ParseError {
            span: Span { from: 4, to: 4 },
            found: None,
            expected: Expected::Unspecified
        }
    );
    assert_eq!(
        source.expect_msg(Expected::Ident).map(|t| t.span).unwrap_err(),
        source.error_in_place(Expected::Ident)
    );
}

#[test]
fn cursor_refuses_another_token() {
    let tokens = Lexer::from_str("a b").unwrap();
    let mut source = SourceAst::new(&tokens);
    let error = source
        .expect_token(Token::Punctuation(TokenPunctuation::Colon))
        .map(|t| t.span)
        .unwrap_err();
    assert_eq!(
        error,
        ParseError {
            span: Span { from: 0, to: 1 },
            found: Some(Token::Ident(String::from("a"))),
            expected: Expected::Token(Token::Punctuation(TokenPunctuation::Colon))
        }
    );
    let window = source.with(1, 2);
    assert_eq!(window.pos, 1);
    assert_eq!(window.end, 2);
    assert_eq!(window.last_offset, source.last_offset);
}

#[test]
fn copies_are_equal_to_what_they_copy() {
    let tree = create_scope("global g\nif a:\n  x = !1 + \"s\"\nelif b: y\nelse:\n  z = nil");
    assert_eq!(tree.clone(), tree);
    assert_eq!(tree.0[1].clone(), tree.0[1]);
    let expr = bin_op(ident("a"), AstBinaryOp::Mul, not(number(2)));
    assert_eq!(expr.clone(), expr);
}

#[test]
fn one_space_indents_like_two() {
    assert_eq!(
        create_scope("if a:\n b = 1\n if c:\n   d = 2\n e = 3"),
        create_scope("if a:\n  b = 1\n  if c:\n    d = 2\n  e = 3")
    );
}

#[test]
fn parsing_piece_by_piece() {
    let tokens = Lexer::from_str("1 * 2 + 3\n  x").unwrap();
    let mut source = SourceAst::new(&tokens);
    assert_eq!(
        source.find_operator(ruspy::ast::grammar::Tier::Additive),
        Some(3)
    );
    assert_eq!(
        source.find_operator(ruspy::ast::grammar::Tier::Multiplicative),
        Some(1)
    );
    assert_eq!(
        source.parse_expr().unwrap(),
        bin_op(
            bin_op(number(1), AstBinaryOp::Mul, number(2)),
            AstBinaryOp::Add,
            number(3)
        )
    );
    assert_eq!(source.pos, 5);
    assert!(source.peek_stmt(0).is_some());
    assert!(source.peek_stmt(2).is_none());
    assert_eq!(source.pos, 5);
    assert!(source.parse_pre_statement(1));
    assert_eq!(source.pos, 7);
    assert_eq!(source.parse_expr_base().unwrap(), ident("x"));
    assert_eq!(source.eat_indent(3), None);
    assert!(!source.parse_pre_statement(0));
}
