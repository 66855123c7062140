//! Building the syntax tree from tokens.
//!
//! The parser is a set of recursive procedures over a cursor into the token
//! sequence. Each of them is specified by the function of the grammar that
//! bears its name: it returns the tree that the grammar gives and leaves the
//! cursor where the grammar leaves the input, or it returns the grammar's
//! error.
pub mod grammar;
pub mod laws;
pub mod node;
pub mod source;

use crate::lexer::token::{
    token_models, SpannedToken, Token, TokenKeyword, TokenPunctuation,
};
use grammar::{
    eat_indent, next_line, no_longer, operator_index, parse_base, parse_binary,
    parse_conditional, parse_expr, parse_global, parse_otherwise, parse_program, parse_scope,
    parse_statement, pre_statement, tier_operator, Parsed, Tier,
};
use node::{
    names_model, statements_model, AstBinaryOp, AstExpr, AstScope, AstStatement, AstUnaryOp,
};
use source::{Expected, ParseResult, SourceAst, SourceModel};
use std::collections::VecDeque;
use vstd::prelude::*;

verus! {

/// Whether a parser's outcome is what the grammar gives: the tree `parsed`
/// with the cursor left at `after`, or the error.
pub open spec fn parsed_as<T: View>(
    r: ParseResult<T>,
    after: SourceModel,
    parsed: Parsed<T::V>,
) -> bool {
    match parsed {
        Ok((tree, rest)) => r matches Ok(value) && value@ == tree && after == rest,
        Err(e) => r matches Err(error) && error@ == e,
    }
}

/// `head` followed by the outcome `tail`.
pub open spec fn prepend<T>(head: Seq<T>, tail: Parsed<Seq<T>>) -> Parsed<Seq<T>> {
    match tail {
        Ok((items, rest)) => Ok((head + items, rest)),
        Err(e) => Err(e),
    }
}

/// The operator of `tier` that `token` spells, if it spells one.
fn operator_of(tier: Tier, token: &Token) -> (r: Option<AstBinaryOp>)
    ensures
        r == tier_operator(tier, token@),
{
    match (tier, token) {
        (Tier::Additive, Token::Punctuation(TokenPunctuation::Plus)) => Some(AstBinaryOp::Add),
        (Tier::Additive, Token::Punctuation(TokenPunctuation::Minus)) => Some(AstBinaryOp::Sub),
        (Tier::Multiplicative, Token::Punctuation(TokenPunctuation::Star)) => Some(
            AstBinaryOp::Mul,
        ),
        (Tier::Multiplicative, Token::Punctuation(TokenPunctuation::Slash)) => Some(
            AstBinaryOp::Div,
        ),
        _ => None,
    }
}

impl AstScope {
    /// Parses a whole program.
    pub fn from_tokens(tokens: VecDeque<SpannedToken>) -> (r: ParseResult<AstScope>)
        ensures
            match parse_program(token_models(tokens@)) {
                Ok(statements) => r matches Ok(scope) && scope@ == statements,
                Err(e) => r matches Err(error) && error@ == e,
            },
    {
        let mut source = SourceAst::new(&tokens);
        source.parse_scope(0)
    }
}

impl<'i> SourceAst<'i> {
    /// The number of tokens left in the window.
    pub open spec fn remaining(&self) -> int {
        self.end - self.pos
    }

    /// Parses the statements of the block at `level`.
    pub fn parse_scope(&mut self, level: usize) -> (r: ParseResult<AstScope>)
        requires
            old(self).wf(),
            level + old(self).remaining() <= usize::MAX,
        ensures
            final(self).continues(old(self)),
            parsed_as(r, final(self)@, parse_scope(old(self)@, level as nat)),
        decreases old(self).remaining(), 2nat,
    {
        let mut nodes: Vec<AstStatement> = Vec::new();
        let ghost goal = parse_scope(old(self)@, level as nat);
        loop
            invariant
                self.continues(old(self)),
                level + self.remaining() <= usize::MAX,
                goal == prepend(statements_model(nodes@), parse_scope(self@, level as nat)),
                goal == parse_scope(old(self)@, level as nat),
            decreases self.remaining(),
        {
            let ghost done = statements_model(nodes@);
            let more = self.parse_pre_statement(level);
            if !more {
                proof {
                    assert(AstScope(nodes).model() =~= done);
                }
                return Ok(AstScope(nodes));
            }
            let stmt = self.parse_statement(level)?;
            proof {
                match parse_scope(self@, level as nat) {
                    Ok((items, rest)) => {
                        assert(done + (seq![stmt@] + items) =~= done.push(stmt@) + items);
                    },
                    Err(_) => {},
                }
                assert(statements_model(nodes@.push(stmt)) =~= done.push(stmt@));
            }
            nodes.push(stmt);
        }
    }

    /// Reads up to `level` indentations. See [`grammar::eat_indent`].
    pub fn eat_indent(&mut self, level: usize) -> (r: Option<bool>)
        requires
            old(self).wf(),
        ensures
            final(self).continues(old(self)),
            (r, final(self)@) == eat_indent(old(self)@, level as nat),
            r == Some(true) ==> final(self).pos > old(self).pos,
    {
        let mut left = level;
        while left > 0
            invariant
                self.continues(old(self)),
                eat_indent(old(self)@, level as nat) == eat_indent(self@, left as nat),
            decreases left,
        {
            let Some(tk) = self.peek() else {
                return None;
            };
            if tk.token.token.is_punctuation(TokenPunctuation::Indentation) {
                left -= 1;
            } else if tk.token.token.is_punctuation(TokenPunctuation::Newline) {
                return Some(true);
            } else {
                tk.recover(self);
                return None;
            }
        }
        Some(false)
    }

    /// Gets ready for a statement of the block at `level`: reads the line
    /// end, the blank lines and the indentation before it. Returns `false`
    /// where no statement of the block follows; the cursor is then where it
    /// was.
    pub fn parse_pre_statement(&mut self, level: usize) -> (more: bool)
        requires
            old(self).wf(),
        ensures
            final(self).continues(old(self)),
            (more, final(self)@) == pre_statement(old(self)@, level as nat),
            more ==> final(self).pos < final(self).end,
    {
        let start = *self;
        let Some(first) = self.peek() else {
            return false;
        };
        if !first.token.token.is_punctuation(TokenPunctuation::Newline) {
            first.recover(self);
            return true;
        }
        let ghost goal = next_line(self@, level as nat);
        loop
            invariant
                self.continues(old(self)),
                start == *old(self),
                goal == next_line(self@, level as nat),
                pre_statement(old(self)@, level as nat) == match goal {
                    Some(found) => (true, found),
                    None => (false, old(self)@),
                },
            decreases self.remaining(),
        {
            match self.eat_indent(level) {
                Some(false) => {},
                Some(true) => {
                    continue ;
                },
                None => {
                    *self = start;
                    return false;
                },
            }
            let Some(first) = self.peek() else {
                *self = start;
                return false;
            };
            if first.token.token.is_punctuation(TokenPunctuation::Newline) {
                continue ;
            }
            first.recover(self);
            return true;
        }
    }

    /// Looks ahead to the first token of the next statement of the block at
    /// `level`, without moving the cursor. Returns that token and the cursor
    /// as it stands after it, or `None` where the block has no further
    /// statement.
    pub fn peek_stmt(&self, level: usize) -> (r: Option<(SourceAst<'i>, &'i SpannedToken)>)
        requires
            self.wf(),
        ensures
            ({
                let (more, ahead) = pre_statement(self@, level as nat);
                match r {
                    Some((cursor, token)) => {
                        &&& more
                        &&& !ahead.at_end()
                        &&& no_longer(ahead, self@)
                        &&& token@ == ahead.first()
                        &&& cursor@ == ahead.drop_first()
                        &&& cursor.continues(self)
                        &&& cursor.pos > self.pos
                    },
                    None => !more,
                }
            }),
    {
        let mut ahead = *self;
        if !ahead.parse_pre_statement(level) {
            return None;
        }
        let tokens: &'i VecDeque<SpannedToken> = ahead.tokens;
        let token = &tokens[ahead.pos];
        let ghost before = ahead;
        ahead.pos += 1;
        proof {
            before.lemma_advance(&ahead);
        }
        Some((ahead, token))
    }

    /// Parses one statement of the block at `level`.
    pub fn parse_statement(&mut self, level: usize) -> (r: ParseResult<AstStatement>)
        requires
            old(self).wf(),
            level + old(self).remaining() <= usize::MAX,
        ensures
            final(self).continues(old(self)),
            parsed_as(r, final(self)@, parse_statement(old(self)@, level as nat)),
            r.is_ok() ==> final(self).pos > old(self).pos,
        decreases old(self).remaining(), 1nat,
    {
        let first = self.peek_expect()?;
        match &first.token.token {
            Token::Ident(name) => {
                let assigned = match self.peek() {
                    Some(token) => {
                        if token.token.token.is_punctuation(TokenPunctuation::Equal) {
                            true
                        } else {
                            token.recover(self);
                            false
                        }
                    },
                    None => false,
                };
                if assigned {
                    let value = self.parse_expr()?;
                    Ok(AstStatement::VariableDeclaration(name.clone(), Box::new(value)))
                } else {
                    first.recover(self);
                    let value = self.parse_expr()?;
                    Ok(AstStatement::Expresion(Box::new(value)))
                }
            },
            Token::Keyword(TokenKeyword::Global) => {
                let names = self.parse_global()?;
                Ok(AstStatement::Global(names))
            },
            Token::Keyword(TokenKeyword::If) => self.parse_stmt_if(level),
            Token::Punctuation(TokenPunctuation::Bang) | Token::Literal(_) => {
                first.recover(self);
                let value = self.parse_expr()?;
                Ok(AstStatement::Expresion(Box::new(value)))
            },
            _ => Err(self.error_at(first.accept(), Expected::Unspecified)),
        }
    }

    /// Parses the names of a `global` statement, whose keyword was read.
    /// The line end after the names is left for what follows.
    pub fn parse_global(&mut self) -> (r: ParseResult<Vec<String>>)
        requires
            old(self).wf(),
        ensures
            final(self).continues(old(self)),
            match parse_global(old(self)@) {
                Ok((names, rest)) => {
                    &&& r matches Ok(found)
                    &&& names_model(found@) == names
                    &&& final(self)@ == rest
                },
                Err(e) => r matches Err(error) && error@ == e,
            },
    {
        let mut vars: Vec<String> = Vec::new();
        let ghost goal = parse_global(old(self)@);
        loop
            invariant
                self.continues(old(self)),
                goal == prepend(names_model(vars@), parse_global(self@)),
                goal == parse_global(old(self)@),
            decreases self.remaining(),
        {
            let ghost done = names_model(vars@);
            let name_token = self.expect_msg(Expected::Ident)?;
            let name = match &name_token.token {
                Token::Ident(name) => name.clone(),
                _ => {
                    return Err(self.error_at(name_token, Expected::Ident));
                },
            };
            proof {
                assert(names_model(vars@.push(name)) =~= done.push(name@));
            }
            vars.push(name);
            if self.pos >= self.end {
                return Ok(vars);
            }
            let tokens: &'i VecDeque<SpannedToken> = self.tokens;
            let separator = &tokens[self.pos];
            let ghost after_name = *self;
            proof {
                after_name.lemma_first();
            }
            if separator.token.is_punctuation(TokenPunctuation::Newline) {
                return Ok(vars);
            }
            self.pos += 1;
            proof {
                after_name.lemma_advance(&*self);
            }
            if separator.token.is_punctuation(TokenPunctuation::Comma) {
                proof {
                    match parse_global(self@) {
                        Ok((items, rest)) => {
                            assert(done + (seq![name@] + items) =~= done.push(name@) + items);
                        },
                        Err(_) => {},
                    }
                }
            } else {
                return Err(self.error_at(separator, Expected::Comma));
            }
        }
    }

    /// Parses a conditional whose `if` or `elif` was read.
    pub fn parse_stmt_if(&mut self, level: usize) -> (r: ParseResult<AstStatement>)
        requires
            old(self).wf(),
            level + old(self).remaining() < usize::MAX,
        ensures
            final(self).continues(old(self)),
            parsed_as(r, final(self)@, parse_conditional(old(self)@, level as nat)),
            r.is_ok() ==> final(self).pos > old(self).pos,
        decreases old(self).remaining(), 3nat,
    {
        let test = self.parse_expr()?;
        self.expect_token(Token::Punctuation(TokenPunctuation::Colon))?;
        let body = self.parse_scope(level + 1)?;
        let otherwise = self.parse_otherwise(level)?;
        Ok(AstStatement::Conditional { test: Box::new(test), body, otherwise })
    }

    /// Parses the `else` or `elif` part of a conditional at `level`, if the
    /// next statement of that block starts with one of the two words. The
    /// cursor moves only if it does.
    pub fn parse_otherwise(&mut self, level: usize) -> (r: ParseResult<Option<AstScope>>)
        requires
            old(self).wf(),
            level + old(self).remaining() < usize::MAX,
        ensures
            final(self).continues(old(self)),
            match parse_otherwise(old(self)@, level as nat) {
                Ok((otherwise, rest)) => {
                    &&& final(self)@ == rest
                    &&& match otherwise {
                        Some(scope) => r matches Ok(Some(found)) && found@ == scope,
                        None => r matches Ok(None),
                    }
                },
                Err(e) => r matches Err(error) && error@ == e,
            },
        decreases old(self).remaining(), 0nat,
    {
        let Some((mut ahead, keyword)) = self.peek_stmt(level) else {
            return Ok(None);
        };
        match &keyword.token {
            Token::Keyword(TokenKeyword::Else) => {
                ahead.expect_token(Token::Punctuation(TokenPunctuation::Colon))?;
                let scope = ahead.parse_scope(level + 1)?;
                *self = ahead;
                Ok(Some(scope))
            },
            Token::Keyword(TokenKeyword::Elif) => {
                let nested = ahead.parse_stmt_if(level)?;
                *self = ahead;
                let mut nodes: Vec<AstStatement> = Vec::new();
                nodes.push(nested);
                Ok(Some(AstScope(nodes)))
            },
            _ => Ok(None),
        }
    }

    /// Parses an expression.
    pub fn parse_expr(&mut self) -> (r: ParseResult<AstExpr>)
        requires
            old(self).wf(),
        ensures
            final(self).continues(old(self)),
            parsed_as(r, final(self)@, parse_expr(old(self)@)),
            r.is_ok() ==> final(self).pos > old(self).pos,
    {
        self.parse_expr_bin_2()
    }

    /// Parses a primary expression.
    pub fn parse_expr_base(&mut self) -> (r: ParseResult<AstExpr>)
        requires
            old(self).wf(),
        ensures
            final(self).continues(old(self)),
            parsed_as(r, final(self)@, parse_base(old(self)@)),
            r.is_ok() ==> final(self).pos > old(self).pos,
        decreases old(self).remaining(),
    {
        let first = self.expect()?;
        match &first.token {
            Token::Ident(ident) => Ok(AstExpr::Ident(ident.clone())),
            Token::Literal(lit) => Ok(AstExpr::Literal(lit.clone())),
            Token::Punctuation(TokenPunctuation::Bang) => {
                let right = self.parse_expr_base()?;
                Ok(AstExpr::UnaryOp { op: AstUnaryOp::Not, right: Box::new(right) })
            },
            _ => Err(self.error_at(first, Expected::Expression)),
        }
    }

    /// Parses an expression of multiplicative operators.
    pub fn parse_expr_bin_1(&mut self) -> (r: ParseResult<AstExpr>)
        requires
            old(self).wf(),
        ensures
            final(self).continues(old(self)),
            parsed_as(r, final(self)@, parse_binary(old(self)@, Tier::Multiplicative)),
            r.is_ok() ==> final(self).pos > old(self).pos,
    {
        self.parse_expr_bin(Tier::Multiplicative)
    }

    /// Parses an expression of additive operators.
    pub fn parse_expr_bin_2(&mut self) -> (r: ParseResult<AstExpr>)
        requires
            old(self).wf(),
        ensures
            final(self).continues(old(self)),
            parsed_as(r, final(self)@, parse_binary(old(self)@, Tier::Additive)),
            r.is_ok() ==> final(self).pos > old(self).pos,
    {
        self.parse_expr_bin(Tier::Additive)
    }

    /// The index of the first operator of `tier` before the next line end.
    pub fn find_operator(&self, tier: Tier) -> (r: Option<usize>)
        requires
            self.wf(),
        ensures
            match operator_index(self@.tokens, tier, 0) {
                Some(idx) => {
                    &&& r == Some((self.pos + idx) as usize)
                    &&& 0 <= idx < self.remaining()
                    &&& tier_operator(tier, self.tokens@[self.pos + idx].token@).is_some()
                },
                None => r.is_none(),
            },
    {
        let mut i = self.pos;
        while i < self.end
            invariant
                self.wf(),
                self.pos <= i <= self.end,
                operator_index(self@.tokens, tier, 0) == operator_index(
                    self@.tokens,
                    tier,
                    i - self.pos,
                ),
            decreases self.end - i,
        {
            let tokens: &'i VecDeque<SpannedToken> = self.tokens;
            let token = &tokens[i].token;
            if token.is_punctuation(TokenPunctuation::Newline) {
                return None;
            }
            if operator_of(tier, token).is_some() {
                return Some(i);
            }
            i += 1;
        }
        None
    }

    /// Parses an expression of `tier`.
    pub fn parse_expr_bin(&mut self, tier: Tier) -> (r: ParseResult<AstExpr>)
        requires
            old(self).wf(),
        ensures
            final(self).continues(old(self)),
            parsed_as(r, final(self)@, parse_binary(old(self)@, tier)),
            r.is_ok() ==> final(self).pos > old(self).pos,
        decreases old(self).remaining(), tier.rank(),
    {
        let Some(idx) = self.find_operator(tier) else {
            return match tier {
                Tier::Additive => self.parse_expr_bin(Tier::Multiplicative),
                Tier::Multiplicative => self.parse_expr_base(),
            };
        };
        let mut left_source = self.with(self.pos, idx);
        let mut right_source = self.with(idx + 1, self.end);
        proof {
            let k = idx - self.pos;
            assert(left_source@.tokens =~= self@.tokens.take(k));
            assert(right_source@.tokens =~= self@.tokens.skip(k + 1));
        }
        let left = match tier {
            Tier::Additive => left_source.parse_expr_bin(Tier::Multiplicative),
            Tier::Multiplicative => left_source.parse_expr_base(),
        }?;
        let tokens: &'i VecDeque<SpannedToken> = self.tokens;
        let op = operator_of(tier, &tokens[idx].token).unwrap();
        let right = right_source.parse_expr_bin(tier)?;
        *self = right_source;
        Ok(AstExpr::BinaryOp { op, left: Box::new(left), right: Box::new(right) })
    }
}

} // verus!
