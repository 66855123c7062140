//! The grammar, as functions from the tokens that are left to the tree that
//! they spell and the tokens that follow it.
//!
//! Blocks are told apart by indentation. A statement of a block at nesting
//! `level` follows a line end and `level` indentations. A line with fewer
//! indentations closes the block, and the blocks around it in turn, up to
//! the one whose level the line has. Expressions have two tiers of binary operators
//! over primaries, and an operator of a tier splits the line at its first
//! occurrence: its right operand is everything that follows, so operators of
//! one tier group to the right.
//!
//! Some productions test that the input got no longer, or got shorter,
//! before they go on with it. These tests always hold, as the laws of the
//! grammar show; they are there so that the definitions are seen to end.
use super::node::{AstBinaryOp, AstUnaryOp, ExprModel, StatementModel};
use super::source::{token_error, ExpectedModel, ParseErrorModel, SourceModel};
use crate::lexer::token::{SpannedTokenModel, TokenKeyword, TokenModel, TokenPunctuation};
use vstd::prelude::*;

verus! {

/// A tree and the input that follows it, or the error that stopped the parse.
pub type Parsed<T> = Result<(T, SourceModel), ParseErrorModel>;

/// The two tiers of binary operators. Multiplicative operators bind tighter.
#[derive(Clone, Copy, Debug, PartialEq, Eq, Structural)]
pub enum Tier {
    /// `+` and `-`
    Additive,
    /// `*` and `/`
    Multiplicative,
}

impl Tier {
    pub open spec fn rank(self) -> nat {
        match self {
            Tier::Additive => 1,
            Tier::Multiplicative => 0,
        }
    }
}

/// The operator of `tier` that `token` spells, if it spells one.
pub open spec fn tier_operator(tier: Tier, token: TokenModel) -> Option<AstBinaryOp> {
    match (tier, token) {
        (Tier::Additive, TokenModel::Punctuation(TokenPunctuation::Plus)) => Some(
            AstBinaryOp::Add,
        ),
        (Tier::Additive, TokenModel::Punctuation(TokenPunctuation::Minus)) => Some(
            AstBinaryOp::Sub,
        ),
        (Tier::Multiplicative, TokenModel::Punctuation(TokenPunctuation::Star)) => Some(
            AstBinaryOp::Mul,
        ),
        (Tier::Multiplicative, TokenModel::Punctuation(TokenPunctuation::Slash)) => Some(
            AstBinaryOp::Div,
        ),
        _ => None,
    }
}

/// Whether the token ends a line.
pub open spec fn is_newline(token: SpannedTokenModel) -> bool {
    token.token.is_punctuation(TokenPunctuation::Newline)
}

/// The index of the first operator of `tier` at or after `from` that stands
/// before the next line end.
pub open spec fn operator_index(tokens: Seq<SpannedTokenModel>, tier: Tier, from: int) -> Option<
    int,
>
    decreases tokens.len() - from,
{
    if from < 0 || from >= tokens.len() {
        None
    } else if is_newline(tokens[from]) {
        None
    } else if tier_operator(tier, tokens[from].token).is_some() {
        Some(from)
    } else {
        operator_index(tokens, tier, from + 1)
    }
}

/// A primary expression: an identifier, a literal, or `!` before a primary.
pub open spec fn parse_base(src: SourceModel) -> Parsed<ExprModel>
    decreases src.tokens.len(),
{
    if src.at_end() {
        Err(src.eof_error(ExpectedModel::Unspecified))
    } else {
        match src.first().token {
            TokenModel::Ident(name) => Ok((ExprModel::Ident(name), src.advance())),
            TokenModel::Literal(literal) => Ok((ExprModel::Literal(literal), src.advance())),
            TokenModel::Punctuation(TokenPunctuation::Bang) => match parse_base(src.advance()) {
                Ok((right, rest)) => Ok(
                    (ExprModel::UnaryOp { op: AstUnaryOp::Not, right: Box::new(right) }, rest),
                ),
                Err(e) => Err(e),
            },
            _ => Err(token_error(src.first(), ExpectedModel::Expression)),
        }
    }
}

/// The tokens before index `idx`, as the input of a left operand.
pub open spec fn left_of(src: SourceModel, idx: int) -> SourceModel {
    SourceModel { tokens: src.tokens.take(idx), last_offset: src.last_offset }
}

/// The tokens after index `idx`, as the input of a right operand.
pub open spec fn right_of(src: SourceModel, idx: int) -> SourceModel {
    SourceModel { tokens: src.tokens.skip(idx + 1), last_offset: src.last_offset }
}

/// An expression of `tier`.
///
/// Where the line holds an operator of the tier, the first one splits it: the
/// tokens before it are the left operand, parsed one tier down, and whatever
/// they hold beyond that operand is dropped; the tokens after it are the right
/// operand, parsed at the same tier. Where it holds none, the expression is
/// one of the tier below.
pub open spec fn parse_binary(src: SourceModel, tier: Tier) -> Parsed<ExprModel>
    decreases src.tokens.len(), tier.rank(),
{
    match operator_index(src.tokens, tier, 0) {
        Some(idx) if 0 <= idx < src.tokens.len() => {
            let left = match tier {
                Tier::Additive => parse_binary(left_of(src, idx), Tier::Multiplicative),
                Tier::Multiplicative => parse_base(left_of(src, idx)),
            };
            match left {
                Err(e) => Err(e),
                Ok((left, _)) => match parse_binary(right_of(src, idx), tier) {
                    Err(e) => Err(e),
                    Ok((right, rest)) => Ok(
                        (
                            ExprModel::BinaryOp {
                                op: tier_operator(tier, src.tokens[idx].token).unwrap(),
                                left: Box::new(left),
                                right: Box::new(right),
                            },
                            rest,
                        ),
                    ),
                },
            }
        },
        _ => match tier {
            Tier::Additive => parse_binary(src, Tier::Multiplicative),
            Tier::Multiplicative => parse_base(src),
        },
    }
}

/// An expression.
pub open spec fn parse_expr(src: SourceModel) -> Parsed<ExprModel> {
    parse_binary(src, Tier::Additive)
}

/// Reads up to `level` indentations. `Some(false)`: all of them were there.
/// `Some(true)`: the line ended first, and the line end was read too.
/// `None`: the input ended, or another token stands there, which stays.
pub open spec fn eat_indent(src: SourceModel, level: nat) -> (Option<bool>, SourceModel)
    decreases level,
{
    if level == 0 {
        (Some(false), src)
    } else if src.at_end() {
        (None, src)
    } else if src.first().token.is_punctuation(TokenPunctuation::Indentation) {
        eat_indent(src.advance(), (level - 1) as nat)
    } else if is_newline(src.first()) {
        (Some(true), src.advance())
    } else {
        (None, src)
    }
}

/// Whether `after` holds no more tokens than `before`.
pub open spec fn no_longer(after: SourceModel, before: SourceModel) -> bool {
    after.tokens.len() <= before.tokens.len()
}

/// Whether `after` holds fewer tokens than `before`.
pub open spec fn shorter(after: SourceModel, before: SourceModel) -> bool {
    after.tokens.len() < before.tokens.len()
}

/// After a line end: the input at the first token of the next statement of
/// the block at `level`, if there is one. Blank lines are passed over. The
/// next line that is not blank holds a statement of the block if it starts
/// with `level` indentations; with fewer, or where the input ends, the block
/// has no further statement.
pub open spec fn next_line(src: SourceModel, level: nat) -> Option<SourceModel>
    decreases src.tokens.len(),
{
    let (indented, body) = eat_indent(src, level);
    match indented {
        None => None,
        Some(true) => if shorter(body, src) {
            next_line(body, level)
        } else {
            None
        },
        Some(false) => if body.at_end() || !no_longer(body, src) {
            None
        } else if is_newline(body.first()) {
            next_line(body.advance(), level)
        } else {
            Some(body)
        },
    }
}

/// Gets ready for a statement of the block at `level`, and says whether one
/// follows.
///
/// A token other than a line end starts a statement as it stands: so starts
/// the first statement of a program, and a block that follows its colon on
/// the same line. After a line end the next line decides. Where it holds no
/// statement of this block, nothing is read, the line end neither: the line
/// is left for the block around this one, which holds it against its own
/// level.
pub open spec fn pre_statement(src: SourceModel, level: nat) -> (bool, SourceModel) {
    if src.at_end() {
        (false, src)
    } else if !is_newline(src.first()) {
        (true, src)
    } else {
        match next_line(src.advance(), level) {
            Some(start) => (true, start),
            None => (false, src),
        }
    }
}

/// The names of a `global` statement: identifiers with commas between them,
/// up to the line end, which is left in the input, or the end of the input.
pub open spec fn parse_global(src: SourceModel) -> Parsed<Seq<Seq<char>>>
    decreases src.tokens.len(),
{
    if src.at_end() {
        Err(src.eof_error(ExpectedModel::Ident))
    } else {
        match src.first().token {
            TokenModel::Ident(name) => {
                let after_name = src.advance();
                if after_name.at_end() {
                    Ok((seq![name], after_name))
                } else {
                    let separator = after_name.first();
                    if is_newline(separator) {
                        Ok((seq![name], after_name))
                    } else if separator.token.is_punctuation(TokenPunctuation::Comma) {
                        match parse_global(after_name.drop_first()) {
                            Ok((names, rest)) => Ok((seq![name] + names, rest)),
                            Err(e) => Err(e),
                        }
                    } else {
                        Err(token_error(separator, ExpectedModel::Comma))
                    }
                }
            },
            _ => Err(token_error(src.first(), ExpectedModel::Ident)),
        }
    }
}

/// Takes the token `token`, which must come next.
pub open spec fn expect_token(src: SourceModel, token: TokenModel) -> Result<
    SourceModel,
    ParseErrorModel,
> {
    if src.at_end() {
        Err(src.eof_error(ExpectedModel::Token(token)))
    } else if src.first().token == token {
        Ok(src.advance())
    } else {
        Err(token_error(src.first(), ExpectedModel::Token(token)))
    }
}

pub open spec fn colon() -> TokenModel {
    TokenModel::Punctuation(TokenPunctuation::Colon)
}

/// A statement of the block at `level`.
pub open spec fn parse_statement(src: SourceModel, level: nat) -> Parsed<StatementModel>
    decreases src.tokens.len(), 1nat,
{
    if src.at_end() {
        Err(src.eof_error(ExpectedModel::Unspecified))
    } else {
        let after_first = src.advance();
        match src.first().token {
            TokenModel::Ident(name) => if !after_first.at_end()
                && after_first.first().token.is_punctuation(TokenPunctuation::Equal) {
                match parse_expr(after_first.advance()) {
                    Ok((value, rest)) => Ok((StatementModel::VariableDeclaration(name, value), rest)),
                    Err(e) => Err(e),
                }
            } else {
                expression_statement(src)
            },
            TokenModel::Keyword(TokenKeyword::Global) => match parse_global(after_first) {
                Ok((names, rest)) => Ok((StatementModel::Global(names), rest)),
                Err(e) => Err(e),
            },
            TokenModel::Keyword(TokenKeyword::If) => parse_conditional(after_first, level),
            TokenModel::Punctuation(TokenPunctuation::Bang) | TokenModel::Literal(_) => {
                expression_statement(src)
            },
            _ => Err(token_error(src.first(), ExpectedModel::Unspecified)),
        }
    }
}

/// An expression that stands as a statement.
pub open spec fn expression_statement(src: SourceModel) -> Parsed<StatementModel> {
    match parse_expr(src) {
        Ok((value, rest)) => Ok((StatementModel::Expresion(value), rest)),
        Err(e) => Err(e),
    }
}

/// A conditional whose `if` or `elif` was read: the test, a colon, the body
/// one level deeper, and what follows of `elif` and `else`.
pub open spec fn parse_conditional(src: SourceModel, level: nat) -> Parsed<StatementModel>
    decreases src.tokens.len(), 3nat,
{
    match parse_expr(src) {
        Err(e) => Err(e),
        Ok((test, after_test)) => match expect_token(after_test, colon()) {
            Err(e) => Err(e),
            Ok(after_colon) => if shorter(after_colon, src) {
                match parse_scope(after_colon, level + 1) {
                    Err(e) => Err(e),
                    Ok((body, after_body)) => if no_longer(after_body, after_colon) {
                        match parse_otherwise(after_body, level) {
                            Err(e) => Err(e),
                            Ok((otherwise, rest)) => Ok(
                                (StatementModel::Conditional { test, body, otherwise }, rest),
                            ),
                        }
                    } else {
                        Ok((StatementModel::Conditional { test, body, otherwise: None }, after_body))
                    },
                }
            } else {
                Err(src.eof_error(ExpectedModel::Unspecified))
            },
        },
    }
}

/// The `else` or `elif` part of a conditional at `level`, if the next
/// statement of that block starts with one of the two words. Where it does
/// not, nothing is read. An `elif` part is a block of one conditional.
pub open spec fn parse_otherwise(src: SourceModel, level: nat) -> Parsed<
    Option<Seq<StatementModel>>,
>
    decreases src.tokens.len(), 0nat,
{
    let (more, ahead) = pre_statement(src, level);
    if !more || ahead.at_end() || !no_longer(ahead, src) {
        Ok((None, src))
    } else {
        let after_keyword = ahead.drop_first();
        match ahead.first().token {
            TokenModel::Keyword(TokenKeyword::Else) => match expect_token(after_keyword, colon()) {
                Err(e) => Err(e),
                Ok(after_colon) => if shorter(after_colon, src) {
                    match parse_scope(after_colon, level + 1) {
                        Err(e) => Err(e),
                        Ok((scope, rest)) => Ok((Some(scope), rest)),
                    }
                } else {
                    Ok((None, src))
                },
            },
            TokenModel::Keyword(TokenKeyword::Elif) => match parse_conditional(
                after_keyword,
                level,
            ) {
                Err(e) => Err(e),
                Ok((nested, rest)) => Ok((Some(seq![nested]), rest)),
            },
            _ => Ok((None, src)),
        }
    }
}

/// The statements of the block at `level`, up to the end of the block.
pub open spec fn parse_scope(src: SourceModel, level: nat) -> Parsed<Seq<StatementModel>>
    decreases src.tokens.len(), 2nat,
{
    let (more, start) = pre_statement(src, level);
    if !more || !no_longer(start, src) {
        Ok((Seq::empty(), start))
    } else {
        match parse_statement(start, level) {
            Err(e) => Err(e),
            Ok((statement, after)) => if shorter(after, start) {
                match parse_scope(after, level) {
                    Err(e) => Err(e),
                    Ok((statements, rest)) => Ok((seq![statement] + statements, rest)),
                }
            } else {
                Ok((seq![statement], after))
            },
        }
    }
}

/// A whole program: the block at level 0.
pub open spec fn parse_program(tokens: Seq<SpannedTokenModel>) -> Result<
    Seq<StatementModel>,
    ParseErrorModel,
> {
    match parse_scope(SourceModel { tokens, last_offset: 0 }, 0) {
        Ok((statements, _)) => Ok(statements),
        Err(e) => Err(e),
    }
}

} // verus!
