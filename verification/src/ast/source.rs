//! The parser's cursor over the token sequence, and the errors it reports.
//!
//! The tokens themselves are never changed. A cursor is a window `pos..end`
//! into them, so trying a production and giving it up again is a matter of
//! copying two indices.
use crate::lexer::span::Span;
use crate::lexer::token::{token_models, SpannedToken, SpannedTokenModel, Token, TokenModel};
use std::collections::VecDeque;
use vstd::prelude::*;

verus! {

/// What the parser was looking for when it failed.
#[derive(Debug, PartialEq)]
pub enum Expected {
    /// Nothing in particular: any token that fits the production.
    Unspecified,
    /// The start of an expression.
    Expression,
    /// An identifier.
    Ident,
    /// A comma between names.
    Comma,
    /// This very token.
    Token(Token),
}

/// What an [`Expected`] stands for.
pub enum ExpectedModel {
    Unspecified,
    Expression,
    Ident,
    Comma,
    Token(TokenModel),
}

/// A syntax error.
#[derive(Debug, PartialEq)]
pub struct ParseError {
    /// The place that the error refers to: the span of the offending token,
    /// or, where the input ended too early, the empty span at the offset of
    /// the token read last.
    pub span: Span,
    /// The offending token, or `None` where the input ended too early.
    pub found: Option<Token>,
    pub expected: Expected,
}

/// What a [`ParseError`] stands for.
pub struct ParseErrorModel {
    pub span: Span,
    pub found: Option<TokenModel>,
    pub expected: ExpectedModel,
}

impl View for Expected {
    type V = ExpectedModel;

    open spec fn view(&self) -> ExpectedModel {
        match self {
            Expected::Unspecified => ExpectedModel::Unspecified,
            Expected::Expression => ExpectedModel::Expression,
            Expected::Ident => ExpectedModel::Ident,
            Expected::Comma => ExpectedModel::Comma,
            Expected::Token(token) => ExpectedModel::Token(token@),
        }
    }
}

impl View for ParseError {
    type V = ParseErrorModel;

    open spec fn view(&self) -> ParseErrorModel {
        ParseErrorModel {
            span: self.span,
            found: match self.found {
                Some(token) => Some(token@),
                None => None,
            },
            expected: self.expected@,
        }
    }
}

pub type ParseResult<T> = Result<T, ParseError>;

/// The input that is left to parse: the tokens not yet read, and the offset
/// in the source of the token read last.
pub struct SourceModel {
    pub tokens: Seq<SpannedTokenModel>,
    pub last_offset: usize,
}

impl SourceModel {
    /// Whether no token is left.
    pub open spec fn at_end(self) -> bool {
        self.tokens.len() == 0
    }

    /// The next token.
    pub open spec fn first(self) -> SpannedTokenModel
        recommends
            !self.at_end(),
    {
        self.tokens[0]
    }

    /// The input after the next token was read.
    pub open spec fn advance(self) -> SourceModel
        recommends
            !self.at_end(),
    {
        SourceModel { tokens: self.tokens.skip(1), last_offset: self.tokens[0].span.from }
    }

    /// The input after the next token was taken out without being looked at.
    pub open spec fn drop_first(self) -> SourceModel
        recommends
            !self.at_end(),
    {
        SourceModel { tokens: self.tokens.skip(1), last_offset: self.last_offset }
    }

    /// The error for input that ended too early.
    pub open spec fn eof_error(self, expected: ExpectedModel) -> ParseErrorModel {
        ParseErrorModel {
            span: Span { from: self.last_offset, to: self.last_offset },
            found: None,
            expected,
        }
    }
}

/// The error for a token that does not fit.
pub open spec fn token_error(token: SpannedTokenModel, expected: ExpectedModel) -> ParseErrorModel {
    ParseErrorModel { span: token.span, found: Some(token.token), expected }
}

/// A window into a token sequence, with the offset of the token read last.
#[derive(Clone, Copy, Debug)]
pub struct SourceAst<'i> {
    pub tokens: &'i VecDeque<SpannedToken>,
    /// Index of the next token.
    pub pos: usize,
    /// Index after the last token of the window.
    pub end: usize,
    pub last_offset: usize,
}

/// A token that was read ahead, with what is needed to put it back.
pub struct PeekedToken<'i> {
    pub token: &'i SpannedToken,
    /// The cursor's `last_offset` before the token was read.
    pub last_offset: usize,
}

impl<'i> View for SourceAst<'i> {
    type V = SourceModel;

    open spec fn view(&self) -> SourceModel {
        SourceModel {
            tokens: token_models(self.tokens@.subrange(self.pos as int, self.end as int)),
            last_offset: self.last_offset,
        }
    }
}

impl<'i> SourceAst<'i> {
    /// The window lies inside the token sequence.
    pub open spec fn wf(&self) -> bool {
        self.pos <= self.end <= self.tokens@.len()
    }

    /// Whether `self` is a valid later state of `before`: the same window,
    /// read at least as far.
    pub open spec fn continues(&self, before: &SourceAst<'i>) -> bool {
        &&& self.wf()
        &&& self.tokens == before.tokens
        &&& self.end == before.end
        &&& before.pos <= self.pos
    }

    /// Whether `self` is `before` after `count` more tokens were read from
    /// the same window.
    pub open spec fn follows(&self, before: &SourceAst<'i>, count: int) -> bool {
        &&& self.tokens == before.tokens
        &&& self.end == before.end
        &&& self.pos == before.pos + count
    }

    /// A cursor over all of `tokens`.
    pub fn new(tokens: &'i VecDeque<SpannedToken>) -> (r: Self)
        ensures
            r.wf(),
            r.tokens == tokens,
            r.pos == 0,
            r.end == tokens@.len(),
            r@ == (SourceModel { tokens: token_models(tokens@), last_offset: 0 }),
    {
        assert(tokens@.subrange(0, tokens@.len() as int) =~= tokens@);
        Self { tokens, pos: 0, end: tokens.len(), last_offset: 0 }
    }

    /// A cursor over the tokens `pos..end` of the same sequence, which has
    /// read the same token last.
    pub fn with(&self, pos: usize, end: usize) -> (r: Self)
        requires
            pos <= end <= self.tokens@.len(),
        ensures
            r.wf(),
            r.tokens == self.tokens,
            r.pos == pos,
            r.end == end,
            r.last_offset == self.last_offset,
    {
        Self { tokens: self.tokens, pos, end, last_offset: self.last_offset }
    }

    /// What the model of the cursor is after one more token was read.
    pub proof fn lemma_advance(&self, after: &SourceAst<'i>)
        requires
            self.wf(),
            self.pos < self.end,
            after.follows(self, 1),
        ensures
            after.wf(),
            !self@.at_end(),
            self@.first() == self.tokens@[self.pos as int]@,
            after@.tokens == self@.tokens.skip(1),
    {
    }

    /// The first token of the model is the token under the cursor.
    pub proof fn lemma_first(&self)
        requires
            self.wf(),
            self.pos < self.end,
        ensures
            !self@.at_end(),
            self@.first() == self.tokens@[self.pos as int]@,
    {
    }

    /// Reads the next token, if there is one. It can be put back with
    /// [`PeekedToken::recover`].
    pub fn peek(&mut self) -> (r: Option<PeekedToken<'i>>)
        requires
            old(self).wf(),
        ensures
            final(self).wf(),
            match r {
                Some(peeked) => {
                    &&& !old(self)@.at_end()
                    &&& final(self).follows(old(self), 1)
                    &&& final(self)@ == old(self)@.advance()
                    &&& *peeked.token == old(self).tokens@[old(self).pos as int]
                    &&& peeked.token@ == old(self)@.first()
                    &&& peeked.last_offset == old(self).last_offset
                },
                None => old(self)@.at_end() && *final(self) == *old(self),
            },
    {
        if self.pos >= self.end {
            return None;
        }
        let tokens: &'i VecDeque<SpannedToken> = self.tokens;
        let token = &tokens[self.pos];
        let last_offset = self.last_offset;
        let ghost before = *self;
        self.last_offset = token.span.from;
        self.pos += 1;
        proof {
            before.lemma_advance(&*self);
        }
        Some(PeekedToken { token, last_offset })
    }

    /// Reads the next token, which must be there.
    pub fn peek_expect(&mut self) -> (r: ParseResult<PeekedToken<'i>>)
        requires
            old(self).wf(),
        ensures
            final(self).wf(),
            match r {
                Ok(peeked) => {
                    &&& !old(self)@.at_end()
                    &&& final(self).follows(old(self), 1)
                    &&& final(self)@ == old(self)@.advance()
                    &&& *peeked.token == old(self).tokens@[old(self).pos as int]
                    &&& peeked.token@ == old(self)@.first()
                    &&& peeked.last_offset == old(self).last_offset
                },
                Err(e) => {
                    &&& old(self)@.at_end()
                    &&& *final(self) == *old(self)
                    &&& e@ == old(self)@.eof_error(ExpectedModel::Unspecified)
                },
            },
    {
        match self.peek() {
            Some(peeked) => Ok(peeked),
            None => Err(self.error_in_place(Expected::Unspecified)),
        }
    }

    /// Takes the next token, which must be there.
    pub fn expect(&mut self) -> (r: ParseResult<&'i SpannedToken>)
        requires
            old(self).wf(),
        ensures
            final(self).wf(),
            match r {
                Ok(token) => {
                    &&& !old(self)@.at_end()
                    &&& final(self).follows(old(self), 1)
                    &&& final(self)@ == old(self)@.advance()
                    &&& *token == old(self).tokens@[old(self).pos as int]
                    &&& token@ == old(self)@.first()
                },
                Err(e) => {
                    &&& old(self)@.at_end()
                    &&& *final(self) == *old(self)
                    &&& e@ == old(self)@.eof_error(ExpectedModel::Unspecified)
                },
            },
    {
        self.expect_msg(Expected::Unspecified)
    }

    /// Takes the next token, which must be there; `expected` says in the
    /// error what was looked for.
    pub fn expect_msg(&mut self, expected: Expected) -> (r: ParseResult<&'i SpannedToken>)
        requires
            old(self).wf(),
        ensures
            final(self).wf(),
            match r {
                Ok(token) => {
                    &&& !old(self)@.at_end()
                    &&& final(self).follows(old(self), 1)
                    &&& final(self)@ == old(self)@.advance()
                    &&& *token == old(self).tokens@[old(self).pos as int]
                    &&& token@ == old(self)@.first()
                },
                Err(e) => {
                    &&& old(self)@.at_end()
                    &&& *final(self) == *old(self)
                    &&& e@ == old(self)@.eof_error(expected@)
                },
            },
    {
        match self.peek() {
            Some(peeked) => Ok(peeked.accept()),
            None => Err(self.error_in_place(expected)),
        }
    }

    /// Takes the next token and hands it to `predicate`, which picks out what
    /// is wanted of it or refuses it.
    pub fn expect_match<T, F: Fn(&SpannedToken) -> Option<T>>(
        &mut self,
        expected: Expected,
        predicate: F,
    ) -> (r: ParseResult<T>)
        requires
            old(self).wf(),
            forall|token: &SpannedToken| predicate.requires((token,)),
        ensures
            final(self).wf(),
            match r {
                Ok(value) => {
                    &&& !old(self)@.at_end()
                    &&& final(self).follows(old(self), 1)
                    &&& final(self)@ == old(self)@.advance()
                    &&& predicate.ensures((&old(self).tokens@[old(self).pos as int],), Some(value))
                },
                Err(e) => if old(self)@.at_end() {
                    &&& *final(self) == *old(self)
                    &&& e@ == old(self)@.eof_error(expected@)
                } else {
                    &&& final(self).follows(old(self), 1)
                    &&& final(self)@ == old(self)@.advance()
                    &&& predicate.ensures(
                        (&old(self).tokens@[old(self).pos as int],),
                        None::<T>,
                    )
                    &&& e@ == token_error(old(self)@.first(), expected@)
                },
            },
    {
        match self.peek() {
            None => Err(self.error_in_place(expected)),
            Some(peeked) => {
                let first = peeked.accept();
                match predicate(first) {
                    Some(value) => Ok(value),
                    None => Err(self.error_at(first, expected)),
                }
            },
        }
    }

    /// Takes the next token, which must be `token`.
    pub fn expect_token(&mut self, token: Token) -> (r: ParseResult<&'i SpannedToken>)
        requires
            old(self).wf(),
        ensures
            final(self).wf(),
            match r {
                Ok(found) => {
                    &&& !old(self)@.at_end()
                    &&& old(self)@.first().token == token@
                    &&& final(self).follows(old(self), 1)
                    &&& final(self)@ == old(self)@.advance()
                    &&& *found == old(self).tokens@[old(self).pos as int]
                    &&& found@ == old(self)@.first()
                },
                Err(e) => if old(self)@.at_end() {
                    &&& *final(self) == *old(self)
                    &&& e@ == old(self)@.eof_error(ExpectedModel::Token(token@))
                } else {
                    &&& old(self)@.first().token != token@
                    &&& final(self).follows(old(self), 1)
                    &&& final(self)@ == old(self)@.advance()
                    &&& e@ == token_error(old(self)@.first(), ExpectedModel::Token(token@))
                },
            },
    {
        match self.peek() {
            None => Err(self.error_in_place(Expected::Token(token))),
            Some(peeked) => {
                let first = peeked.accept();
                if first.token == token {
                    Ok(first)
                } else {
                    Err(self.error_at(first, Expected::Token(token)))
                }
            },
        }
    }

    /// The error for input that ended too early.
    pub fn error_in_place(&self, expected: Expected) -> (e: ParseError)
        ensures
            e@ == self@.eof_error(expected@),
    {
        ParseError {
            span: Span { from: self.last_offset, to: self.last_offset },
            found: None,
            expected,
        }
    }

    /// The error for the token `found`, which does not fit.
    pub fn error_at(&self, found: &SpannedToken, expected: Expected) -> (e: ParseError)
        ensures
            e@ == token_error(found@, expected@),
    {
        ParseError { span: found.span, found: Some(found.token.clone()), expected }
    }
}

impl<'i> PeekedToken<'i> {
    /// Keeps the token as read.
    pub fn accept(self) -> (r: &'i SpannedToken)
        ensures
            r == self.token,
    {
        self.token
    }

    /// Puts the token back: the cursor steps back by one token, if it has
    /// read any, and forgets that it read this one.
    pub fn recover(self, source: &mut SourceAst<'i>)
        requires
            old(source).wf(),
        ensures
            final(source).wf(),
            final(source).tokens == old(source).tokens,
            final(source).end == old(source).end,
            final(source).last_offset == self.last_offset,
            final(source).pos == if old(source).pos > 0 {
                old(source).pos - 1
            } else {
                0
            },
            old(source).pos > 0 ==> final(source)@.tokens == seq![
                old(source).tokens@[old(source).pos - 1]@,
            ] + old(source)@.tokens,
    {
        if source.pos > 0 {
            source.pos -= 1;
        }
        source.last_offset = self.last_offset;
    }
}

} // verus!
