//! Tokens, and the mathematical values that contracts use to speak of them.
use super::span::Span;
use vstd::prelude::*;
use vstd::std_specs::cmp::PartialEqSpecImpl;
use vstd::std_specs::convert::FromSpecImpl;
use vstd::string::*;

verus! {

/// Reserved words.
#[derive(Clone, Copy, Debug, PartialEq, Eq, Structural)]
pub enum TokenKeyword {
    Elif,
    Else,
    Global,
    If,
}

/// Operators and layout marks.
#[derive(Clone, Copy, Debug, PartialEq, Eq, Structural)]
pub enum TokenPunctuation {
    /// `+`
    Plus,
    /// `!`
    Bang,
    /// `!=`
    BangEqual,
    /// `:`
    Colon,
    /// `,`
    Comma,
    /// `=`
    Equal,
    /// `==`
    EqualEqual,
    /// One level of indentation.
    Indentation,
    /// `-`
    Minus,
    /// End of line.
    Newline,
    /// `/`
    Slash,
    /// `*`
    Star,
}

/// A literal value as written in the source.
#[derive(Debug)]
pub enum TokenLiteral {
    Nil,
    Bool(bool),
    Number(i64),
    String(String),
}

/// What a [`TokenLiteral`] stands for.
pub enum LiteralModel {
    Nil,
    Bool(bool),
    Number(i64),
    String(Seq<char>),
}

/// One lexical unit.
#[derive(Debug)]
pub enum Token {
    Ident(String),
    Keyword(TokenKeyword),
    Literal(TokenLiteral),
    Punctuation(TokenPunctuation),
}

/// What a [`Token`] stands for.
pub enum TokenModel {
    Ident(Seq<char>),
    Keyword(TokenKeyword),
    Literal(LiteralModel),
    Punctuation(TokenPunctuation),
}

/// A token together with the place it was read from.
#[derive(Debug)]
pub struct SpannedToken {
    pub span: Span,
    pub token: Token,
}

/// What a [`SpannedToken`] stands for.
pub struct SpannedTokenModel {
    pub span: Span,
    pub token: TokenModel,
}

impl View for TokenLiteral {
    type V = LiteralModel;

    open spec fn view(&self) -> LiteralModel {
        match self {
            TokenLiteral::Nil => LiteralModel::Nil,
            TokenLiteral::Bool(b) => LiteralModel::Bool(*b),
            TokenLiteral::Number(n) => LiteralModel::Number(*n),
            TokenLiteral::String(s) => LiteralModel::String(s@),
        }
    }
}

impl View for Token {
    type V = TokenModel;

    open spec fn view(&self) -> TokenModel {
        match self {
            Token::Ident(name) => TokenModel::Ident(name@),
            Token::Keyword(k) => TokenModel::Keyword(*k),
            Token::Literal(l) => TokenModel::Literal(l@),
            Token::Punctuation(p) => TokenModel::Punctuation(*p),
        }
    }
}

impl View for SpannedToken {
    type V = SpannedTokenModel;

    open spec fn view(&self) -> SpannedTokenModel {
        SpannedTokenModel { span: self.span, token: self.token@ }
    }
}

/// The models of a sequence of spanned tokens, in order.
pub open spec fn token_models(tokens: Seq<SpannedToken>) -> Seq<SpannedTokenModel> {
    tokens.map_values(|t: SpannedToken| t@)
}

/// The tokens of a sequence of spanned tokens, without their spans.
pub open spec fn token_kinds(tokens: Seq<SpannedTokenModel>) -> Seq<TokenModel> {
    tokens.map_values(|t: SpannedTokenModel| t.token)
}

impl TokenModel {
    pub open spec fn is_punctuation(self, p: TokenPunctuation) -> bool {
        self == TokenModel::Punctuation(p)
    }

    pub open spec fn is_keyword(self, k: TokenKeyword) -> bool {
        self == TokenModel::Keyword(k)
    }
}

impl Clone for TokenLiteral {
    fn clone(&self) -> (r: Self)
        ensures
            r@ == self@,
    {
        match self {
            TokenLiteral::Nil => TokenLiteral::Nil,
            TokenLiteral::Bool(b) => TokenLiteral::Bool(*b),
            TokenLiteral::Number(n) => TokenLiteral::Number(*n),
            TokenLiteral::String(s) => TokenLiteral::String(s.clone()),
        }
    }
}

impl PartialEq for TokenLiteral {
    fn eq(&self, other: &TokenLiteral) -> (r: bool) {
        match (self, other) {
            (TokenLiteral::Nil, TokenLiteral::Nil) => true,
            (TokenLiteral::Bool(a), TokenLiteral::Bool(b)) => *a == *b,
            (TokenLiteral::Number(a), TokenLiteral::Number(b)) => *a == *b,
            (TokenLiteral::String(a), TokenLiteral::String(b)) => *a == *b,
            _ => false,
        }
    }
}

impl PartialEqSpecImpl for TokenLiteral {
    open spec fn obeys_eq_spec() -> bool {
        true
    }

    open spec fn eq_spec(&self, other: &TokenLiteral) -> bool {
        self@ == other@
    }
}

impl Clone for Token {
    fn clone(&self) -> (r: Self)
        ensures
            r@ == self@,
    {
        match self {
            Token::Ident(name) => Token::Ident(name.clone()),
            Token::Keyword(k) => Token::Keyword(*k),
            Token::Literal(l) => Token::Literal(l.clone()),
            Token::Punctuation(p) => Token::Punctuation(*p),
        }
    }
}

impl PartialEq for Token {
    fn eq(&self, other: &Token) -> (r: bool) {
        match (self, other) {
            (Token::Ident(a), Token::Ident(b)) => *a == *b,
            (Token::Keyword(a), Token::Keyword(b)) => *a == *b,
            (Token::Literal(a), Token::Literal(b)) => *a == *b,
            (Token::Punctuation(a), Token::Punctuation(b)) => *a == *b,
            _ => false,
        }
    }
}

impl PartialEqSpecImpl for Token {
    open spec fn obeys_eq_spec() -> bool {
        true
    }

    open spec fn eq_spec(&self, other: &Token) -> bool {
        self@ == other@
    }
}

impl Token {
    /// The name, if the token is an identifier.
    pub fn into_ident(self) -> (r: Option<String>)
        ensures
            match self {
                Token::Ident(name) => r == Some(name),
                _ => r.is_none(),
            },
    {
        if let Token::Ident(ident) = self {
            Some(ident)
        } else {
            None
        }
    }

    /// Whether the token is the punctuation mark `p`.
    pub fn is_punctuation(&self, p: TokenPunctuation) -> (r: bool)
        ensures
            r == self@.is_punctuation(p),
    {
        match self {
            Token::Punctuation(q) => *q == p,
            _ => false,
        }
    }

    /// Whether the token is the keyword `k`.
    pub fn is_keyword(&self, k: TokenKeyword) -> (r: bool)
        ensures
            r == self@.is_keyword(k),
    {
        match self {
            Token::Keyword(q) => *q == k,
            _ => false,
        }
    }
}

impl Clone for SpannedToken {
    fn clone(&self) -> (r: Self)
        ensures
            r@ == self@,
    {
        SpannedToken { span: self.span, token: self.token.clone() }
    }
}

/// Spanned tokens are equal when their tokens are; where they were read does
/// not count.
impl PartialEq for SpannedToken {
    fn eq(&self, other: &SpannedToken) -> (r: bool) {
        self.token == other.token
    }
}

impl PartialEqSpecImpl for SpannedToken {
    open spec fn obeys_eq_spec() -> bool {
        true
    }

    open spec fn eq_spec(&self, other: &SpannedToken) -> bool {
        self.token@ == other.token@
    }
}

impl SpannedToken {
    pub fn new(span: Span, token: Token) -> (r: Self)
        ensures
            r.span == span,
            r.token == token,
    {
        Self { span, token }
    }

    /// Splits the token into its span and the bare token.
    pub fn parts(self) -> (r: (Span, Token))
        ensures
            r.0 == self.span,
            r.1 == self.token,
    {
        (self.span, self.token)
    }
}

/// A spanned token equals a bare token when its token does.
impl PartialEq<Token> for SpannedToken {
    fn eq(&self, other: &Token) -> (r: bool) {
        self.token == *other
    }
}

impl PartialEqSpecImpl<Token> for SpannedToken {
    open spec fn obeys_eq_spec() -> bool {
        true
    }

    open spec fn eq_spec(&self, other: &Token) -> bool {
        self.token@ == other@
    }
}

/// A spanned token can stand where its token is wanted.
impl std::ops::Deref for SpannedToken {
    type Target = Token;

    fn deref(&self) -> (r: &Token)
        ensures
            *r == self.token,
    {
        &self.token
    }
}

impl From<i64> for TokenLiteral {
    fn from(value: i64) -> (r: Self) {
        Self::Number(value)
    }
}

impl FromSpecImpl<i64> for TokenLiteral {
    open spec fn obeys_from_spec() -> bool {
        true
    }

    open spec fn from_spec(value: i64) -> Self {
        TokenLiteral::Number(value)
    }
}

impl From<bool> for TokenLiteral {
    fn from(value: bool) -> (r: Self) {
        Self::Bool(value)
    }
}

impl FromSpecImpl<bool> for TokenLiteral {
    open spec fn obeys_from_spec() -> bool {
        true
    }

    open spec fn from_spec(value: bool) -> Self {
        TokenLiteral::Bool(value)
    }
}

impl From<String> for TokenLiteral {
    fn from(value: String) -> (r: Self) {
        Self::String(value)
    }
}

impl FromSpecImpl<String> for TokenLiteral {
    open spec fn obeys_from_spec() -> bool {
        true
    }

    open spec fn from_spec(value: String) -> Self {
        TokenLiteral::String(value)
    }
}

impl TokenLiteral {
    /// The string literal with the text of `value`.
    pub fn from_str(value: &str) -> (r: Self)
        ensures
            r@ == LiteralModel::String(value@),
    {
        Self::String(value.to_owned())
    }
}

} // verus!
