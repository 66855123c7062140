//! Turning source text into a sequence of spanned tokens.
//!
//! The text is read once from left to right. At each position the class of the
//! next character decides which kind of token starts there, and the longest
//! run of fitting characters becomes that token.
//!
//! Spaces and tabs after a token are dropped. After a line end or an
//! indentation they are not: there spaces are layout and become indentation
//! tokens, two spaces each, and one for a last space that is left alone. A
//! tab in that place starts no token.
//!
//! Positions and spans count characters, not bytes.
pub mod laws;
pub mod source;
pub mod span;
pub mod token;
pub mod utils;

use crate::common::text::{text_is, text_of};
use source::{LexerError, LexerErrorKind, LexerResult, SourceLexer, SourceLexerExt};
use span::Span;
use std::collections::VecDeque;
use token::{
    token_models, LiteralModel, SpannedToken, SpannedTokenModel, Token, TokenKeyword,
    TokenLiteral, TokenModel, TokenPunctuation,
};
use utils::{
    char_is_alpha, char_is_alphanum, char_is_dec_digit, eat_spaces, is_dec_digit,
    is_ident_part, is_ident_start, is_string_part, lemma_scan_while, lemma_scan_while_unique,
    scan_while, skip_spaces,
};
use vstd::prelude::*;

verus! {

/// What the lexer finds at one position of the text.
pub enum LexStep {
    /// The text ends here.
    Done,
    /// A token starts here; reading goes on at `next`.
    Token { token: SpannedTokenModel, next: int },
    /// No token can be read here.
    Error(LexerError),
}

/// The span `from..to`.
pub open spec fn span_of(from: int, to: int) -> Span {
    Span { from: from as usize, to: to as usize }
}

/// The token that a word stands for: a literal or keyword if it is one of the
/// reserved words, an identifier otherwise.
pub open spec fn word_token(w: Seq<char>) -> TokenModel {
    if w == "nil"@ {
        TokenModel::Literal(LiteralModel::Nil)
    } else if w == "True"@ {
        TokenModel::Literal(LiteralModel::Bool(true))
    } else if w == "False"@ {
        TokenModel::Literal(LiteralModel::Bool(false))
    } else if w == "elif"@ {
        TokenModel::Keyword(TokenKeyword::Elif)
    } else if w == "else"@ {
        TokenModel::Keyword(TokenKeyword::Else)
    } else if w == "global"@ {
        TokenModel::Keyword(TokenKeyword::Global)
    } else if w == "if"@ {
        TokenModel::Keyword(TokenKeyword::If)
    } else {
        TokenModel::Ident(w)
    }
}

/// The number that a sequence of decimal digits denotes.
pub open spec fn decimal_value(digits: Seq<char>) -> nat
    decreases digits.len(),
{
    if digits.len() == 0 {
        0
    } else {
        (decimal_value(digits.drop_last()) * 10 + (digits.last() as int - '0' as int)) as nat
    }
}

/// The punctuation mark that starts at `pos`, with its length in characters.
/// The longer of two marks that fit wins: `!=` before `!`, `==` before `=`,
/// and two spaces before one as an indentation.
pub open spec fn punctuation_at(s: Seq<char>, pos: int) -> Option<(TokenPunctuation, int)> {
    let c = s[pos];
    let doubled = pos + 1 < s.len() && s[pos + 1] == c;
    let followed_by_equal = pos + 1 < s.len() && s[pos + 1] == '=';
    if c == '!' {
        if followed_by_equal {
            Some((TokenPunctuation::BangEqual, 2))
        } else {
            Some((TokenPunctuation::Bang, 1))
        }
    } else if c == ':' {
        Some((TokenPunctuation::Colon, 1))
    } else if c == ',' {
        Some((TokenPunctuation::Comma, 1))
    } else if c == '=' {
        if followed_by_equal {
            Some((TokenPunctuation::EqualEqual, 2))
        } else {
            Some((TokenPunctuation::Equal, 1))
        }
    } else if c == ' ' {
        if doubled {
            Some((TokenPunctuation::Indentation, 2))
        } else {
            Some((TokenPunctuation::Indentation, 1))
        }
    } else if c == '-' {
        Some((TokenPunctuation::Minus, 1))
    } else if c == '\n' {
        Some((TokenPunctuation::Newline, 1))
    } else if c == '+' {
        Some((TokenPunctuation::Plus, 1))
    } else if c == '/' {
        Some((TokenPunctuation::Slash, 1))
    } else if c == '*' {
        Some((TokenPunctuation::Star, 1))
    } else {
        None
    }
}

/// Whether blanks after the mark belong to the block structure and must stay.
pub open spec fn keeps_blanks(p: TokenPunctuation) -> bool {
    p == TokenPunctuation::Newline || p == TokenPunctuation::Indentation
}

/// An identifier, keyword or word literal that starts at `pos`.
pub open spec fn lex_ident(s: Seq<char>, pos: int) -> LexStep {
    let end = scan_while(s, pos, |c: char| is_ident_part(c));
    LexStep::Token {
        token: SpannedTokenModel {
            span: span_of(pos, end),
            token: word_token(s.subrange(pos, end)),
        },
        next: skip_spaces(s, end),
    }
}

/// A number literal that starts at `pos`.
pub open spec fn lex_number(s: Seq<char>, pos: int) -> LexStep {
    let end = scan_while(s, pos, |c: char| is_dec_digit(c));
    let value = decimal_value(s.subrange(pos, end));
    if value <= i64::MAX {
        LexStep::Token {
            token: SpannedTokenModel {
                span: span_of(pos, end),
                token: TokenModel::Literal(LiteralModel::Number(value as i64)),
            },
            next: skip_spaces(s, end),
        }
    } else {
        LexStep::Error(
            LexerError { kind: LexerErrorKind::NumberOutOfRange, span: span_of(pos, end) },
        )
    }
}

/// A string literal whose opening quote is at `pos`. Its span includes both
/// quotes; its value is what stands between them, taken as it is.
pub open spec fn lex_string(s: Seq<char>, pos: int) -> LexStep {
    let close = scan_while(s, pos + 1, |c: char| is_string_part(c));
    if close < s.len() {
        LexStep::Token {
            token: SpannedTokenModel {
                span: span_of(pos, close + 1),
                token: TokenModel::Literal(LiteralModel::String(s.subrange(pos + 1, close))),
            },
            next: skip_spaces(s, close + 1),
        }
    } else {
        LexStep::Error(
            LexerError {
                kind: LexerErrorKind::UnterminatedString,
                span: span_of(pos, s.len() as int),
            },
        )
    }
}

/// A punctuation mark at `pos`, or the error for a character that starts no
/// token.
pub open spec fn lex_punctuation(s: Seq<char>, pos: int) -> LexStep {
    match punctuation_at(s, pos) {
        Some((p, len)) => LexStep::Token {
            token: SpannedTokenModel {
                span: span_of(pos, pos + len),
                token: TokenModel::Punctuation(p),
            },
            next: if keeps_blanks(p) {
                pos + len
            } else {
                skip_spaces(s, pos + len)
            },
        },
        None => LexStep::Error(
            LexerError { kind: LexerErrorKind::UnexpectedChar(s[pos]), span: span_of(pos, pos + 1) },
        ),
    }
}

/// What the lexer finds at position `pos` of `s`.
pub open spec fn lex_step(s: Seq<char>, pos: int) -> LexStep {
    if pos >= s.len() {
        LexStep::Done
    } else if is_ident_start(s[pos]) {
        lex_ident(s, pos)
    } else if is_dec_digit(s[pos]) {
        lex_number(s, pos)
    } else if s[pos] == '"' {
        lex_string(s, pos)
    } else {
        lex_punctuation(s, pos)
    }
}

/// The tokens of `s` from position `pos` on, or the first error.
pub open spec fn lex_from(s: Seq<char>, pos: int) -> Result<Seq<SpannedTokenModel>, LexerError>
    decreases s.len() - pos,
{
    match lex_step(s, pos) {
        LexStep::Done => Ok(Seq::empty()),
        LexStep::Error(e) => Err(e),
        LexStep::Token { token, next } => if pos < next <= s.len() {
            prepend(seq![token], lex_from(s, next))
        } else {
            Ok(seq![token])
        },
    }
}

/// The tokens of `s`, or the first error.
pub open spec fn tokenize(s: Seq<char>) -> Result<Seq<SpannedTokenModel>, LexerError> {
    lex_from(s, 0)
}

/// `head` followed by the tokens of `tail`, if `tail` has any.
pub open spec fn prepend(
    head: Seq<SpannedTokenModel>,
    tail: Result<Seq<SpannedTokenModel>, LexerError>,
) -> Result<Seq<SpannedTokenModel>, LexerError> {
    match tail {
        Ok(rest) => Ok(head + rest),
        Err(e) => Err(e),
    }
}

/// Every token takes at least one character, and reading goes on after it,
/// inside the text. In a text that fits in memory, the span of the token
/// starts where the token was read and ends before reading goes on.
pub proof fn lemma_lex_step_advances(s: Seq<char>, pos: int)
    requires
        0 <= pos,
    ensures
        lex_step(s, pos) matches LexStep::Token { token, next } ==> {
            &&& pos < next <= s.len()
            &&& s.len() <= usize::MAX ==> {
                &&& token.span.from == pos
                &&& pos < token.span.to <= next
            }
        },
{
    if pos < s.len() {
        let blank = |c: char| utils::is_space(c);
        if is_ident_start(s[pos]) {
            let class = |c: char| is_ident_part(c);
            lemma_scan_while(s, pos + 1, class);
            lemma_scan_while(s, scan_while(s, pos, class), blank);
        } else if is_dec_digit(s[pos]) {
            let class = |c: char| is_dec_digit(c);
            lemma_scan_while(s, pos + 1, class);
            lemma_scan_while(s, scan_while(s, pos, class), blank);
        } else if s[pos] == '"' {
            let class = |c: char| is_string_part(c);
            lemma_scan_while(s, pos + 1, class);
            let close = scan_while(s, pos + 1, class);
            if close < s.len() {
                lemma_scan_while(s, close + 1, blank);
            }
        } else {
            match punctuation_at(s, pos) {
                Some((p, len)) => {
                    lemma_scan_while(s, pos + len, blank);
                },
                None => {},
            }
        }
    }
}

/// The lexer. It holds no state of its own: all of it is in the cursor.
pub struct Lexer;

impl Lexer {
    /// Reads all of `input` into tokens, or stops at the first error.
    pub fn from_str(input: &str) -> (r: LexerResult<VecDeque<SpannedToken>>)
        ensures
            match tokenize(input@) {
                Ok(tokens) => r.is_ok() && token_models(r.unwrap()@) == tokens,
                Err(e) => r == Err::<VecDeque<SpannedToken>, LexerError>(e),
            },
    {
        let mut source = SourceLexer::new(input);
        let mut tokens: VecDeque<SpannedToken> = VecDeque::new();
        let ghost s = input@;
        loop
            invariant
                source.wf(),
                source.chars@ == s,
                s == input@,
                tokenize(s) == prepend(token_models(tokens@), lex_from(s, source.offset as int)),
            decreases s.len() - source.offset,
        {
            let ghost before = token_models(tokens@);
            let ghost pos = source.offset as int;
            proof {
                lemma_lex_step_advances(s, pos);
            }
            match Self::next_token(&mut tokens, &mut source) {
                Err(e) => {
                    return Err(e);
                },
                Ok(false) => {
                    return Ok(tokens);
                },
                Ok(true) => {
                    proof {
                        let step = lex_step(s, pos);
                        let token = step->token;
                        let next = step->next;
                        match lex_from(s, next) {
                            Ok(rest) => {
                                assert(before + (seq![token] + rest) =~= before.push(token)
                                    + rest);
                            },
                            Err(_) => {},
                        }
                    }
                },
            }
        }
    }

    /// Reads the token under the cursor, if the text has not ended, and adds it
    /// to `tokens`. Says whether it read one.
    fn next_token(tokens: &mut VecDeque<SpannedToken>, input: &mut SourceLexer) -> (r:
        LexerResult<bool>)
        requires
            old(input).wf(),
        ensures
            final(input).wf(),
            final(input).chars == old(input).chars,
            match lex_step(old(input).chars@, old(input).offset as int) {
                LexStep::Done => r == Ok::<bool, LexerError>(false) && *final(tokens) == *old(
                    tokens,
                ) && *final(input) == *old(input),
                LexStep::Token { token, next } => {
                    &&& r == Ok::<bool, LexerError>(true)
                    &&& token_models(final(tokens)@) == token_models(old(tokens)@).push(token)
                    &&& final(input).offset == next
                },
                LexStep::Error(e) => r == Err::<bool, LexerError>(e),
            },
    {
        let Some(c) = input.peek() else {
            return Ok(false);
        };

        if char_is_alpha(c) || c == '_' {
            Self::token_ident(tokens, input);
            return Ok(true);
        }
        if char_is_dec_digit(c) {
            Self::token_number(tokens, input)?;
            return Ok(true);
        }
        if c == '"' {
            Self::token_string(tokens, input)?;
            return Ok(true);
        }
        let start = input.offset;
        let ghost s = input.chars@;
        let second: Option<char> = if start + 1 < input.chars.len() {
            Some(input.chars[start + 1])
        } else {
            None
        };
        let followed_by_equal = match second {
            Some(d) => d == '=',
            None => false,
        };
        let doubled = match second {
            Some(d) => d == c,
            None => false,
        };
        let (token, len): (TokenPunctuation, usize) = if c == '!' {
            if followed_by_equal {
                (TokenPunctuation::BangEqual, 2)
            } else {
                (TokenPunctuation::Bang, 1)
            }
        } else if c == ':' {
            (TokenPunctuation::Colon, 1)
        } else if c == ',' {
            (TokenPunctuation::Comma, 1)
        } else if c == '=' {
            if followed_by_equal {
                (TokenPunctuation::EqualEqual, 2)
            } else {
                (TokenPunctuation::Equal, 1)
            }
        } else if c == ' ' {
            if doubled {
                (TokenPunctuation::Indentation, 2)
            } else {
                (TokenPunctuation::Indentation, 1)
            }
        } else if c == '-' {
            (TokenPunctuation::Minus, 1)
        } else if c == '\n' {
            (TokenPunctuation::Newline, 1)
        } else if c == '+' {
            (TokenPunctuation::Plus, 1)
        } else if c == '/' {
            (TokenPunctuation::Slash, 1)
        } else if c == '*' {
            (TokenPunctuation::Star, 1)
        } else {
            return Err(input.error(LexerErrorKind::UnexpectedChar(c)));
        };
        let span = Span { from: start, to: start + len };
        input.offset = start + len;

        // Blanks after a line end or an indentation are layout: they stay.
        if token != TokenPunctuation::Newline && token != TokenPunctuation::Indentation {
            eat_spaces(input);
        }
        Self::push_token(tokens, SpannedToken { span, token: Token::Punctuation(token) });
        Ok(true)
    }

    /// Adds `token` at the end of `tokens`.
    fn push_token(tokens: &mut VecDeque<SpannedToken>, token: SpannedToken)
        ensures
            token_models(final(tokens)@) == token_models(old(tokens)@).push(token@),
    {
        tokens.push_back(token);
    }

    /// Reads an identifier, a keyword or a word literal.
    fn token_ident(tokens: &mut VecDeque<SpannedToken>, input: &mut SourceLexer)
        requires
            old(input).wf(),
            old(input).offset < old(input).chars.len(),
            is_ident_start(old(input).chars@[old(input).offset as int]),
        ensures
            final(input).wf(),
            final(input).chars == old(input).chars,
            lex_ident(old(input).chars@, old(input).offset as int) matches LexStep::Token {
                token,
                next,
            } && token_models(final(tokens)@) == token_models(old(tokens)@).push(token)
                && final(input).offset == next,
    {
        let start = input.offset;
        let ghost s = input.chars@;
        let mut end = start;
        while end < input.chars.len() && (char_is_alphanum(input.chars[end]) || input.chars[end]
            == '_')
            invariant
                input.chars@ == s,
                start <= end <= s.len(),
                forall|i: int| start <= i < end ==> is_ident_part(#[trigger] s[i]),
            decreases s.len() - end,
        {
            end += 1;
        }
        proof {
            lemma_scan_while_unique(s, start as int, end as int, |c: char| is_ident_part(c));
        }
        let chars = &input.chars;
        let token = if text_is(chars, start, end, "nil") {
            Token::Literal(TokenLiteral::Nil)
        } else if text_is(chars, start, end, "True") {
            Token::Literal(TokenLiteral::Bool(true))
        } else if text_is(chars, start, end, "False") {
            Token::Literal(TokenLiteral::Bool(false))
        } else if text_is(chars, start, end, "elif") {
            Token::Keyword(TokenKeyword::Elif)
        } else if text_is(chars, start, end, "else") {
            Token::Keyword(TokenKeyword::Else)
        } else if text_is(chars, start, end, "global") {
            Token::Keyword(TokenKeyword::Global)
        } else if text_is(chars, start, end, "if") {
            Token::Keyword(TokenKeyword::If)
        } else {
            Token::Ident(text_of(chars, start, end))
        };
        input.offset = end;
        eat_spaces(input);
        Self::push_token(tokens, SpannedToken { span: Span { from: start, to: end }, token });
    }

    /// Reads a number literal.
    fn token_number(tokens: &mut VecDeque<SpannedToken>, input: &mut SourceLexer) -> (r:
        LexerResult<()>)
        requires
            old(input).wf(),
            old(input).offset < old(input).chars.len(),
        ensures
            final(input).wf(),
            final(input).chars == old(input).chars,
            match lex_number(old(input).chars@, old(input).offset as int) {
                LexStep::Token { token, next } => {
                    &&& r.is_ok()
                    &&& token_models(final(tokens)@) == token_models(old(tokens)@).push(token)
                    &&& final(input).offset == next
                },
                LexStep::Error(e) => r == Err::<(), LexerError>(e),
                LexStep::Done => false,
            },
    {
        let start = input.offset;
        let ghost s = input.chars@;
        let mut end = start;
        let mut value: u64 = 0;
        let mut fits = true;
        while end < input.chars.len() && char_is_dec_digit(input.chars[end])
            invariant
                input.chars@ == s,
                start <= end <= s.len(),
                forall|i: int| start <= i < end ==> is_dec_digit(#[trigger] s[i]),
                fits ==> value == decimal_value(s.subrange(start as int, end as int)),
                fits ==> value <= i64::MAX,
                !fits ==> decimal_value(s.subrange(start as int, end as int)) > i64::MAX,
            decreases s.len() - end,
        {
            let digit: u32 = input.chars[end] as u32 - '0' as u32;
            proof {
                let longer = s.subrange(start as int, end as int + 1);
                assert(longer.drop_last() =~= s.subrange(start as int, end as int));
            }
            if fits {
                let wide: u128 = value as u128 * 10 + digit as u128;
                if wide > i64::MAX as u128 {
                    fits = false;
                } else {
                    value = wide as u64;
                }
            }
            end += 1;
        }
        proof {
            lemma_scan_while_unique(s, start as int, end as int, |c: char| is_dec_digit(c));
        }
        let span = Span { from: start, to: end };
        if !fits {
            return Err(LexerError { kind: LexerErrorKind::NumberOutOfRange, span });
        }
        input.offset = end;
        eat_spaces(input);
        Self::push_token(
            tokens,
            SpannedToken { span, token: Token::Literal(TokenLiteral::Number(value as i64)) },
        );
        Ok(())
    }

    /// Reads a string literal.
    fn token_string(tokens: &mut VecDeque<SpannedToken>, input: &mut SourceLexer) -> (r:
        LexerResult<()>)
        requires
            old(input).wf(),
            old(input).offset < old(input).chars.len(),
        ensures
            final(input).wf(),
            final(input).chars == old(input).chars,
            match lex_string(old(input).chars@, old(input).offset as int) {
                LexStep::Token { token, next } => {
                    &&& r.is_ok()
                    &&& token_models(final(tokens)@) == token_models(old(tokens)@).push(token)
                    &&& final(input).offset == next
                },
                LexStep::Error(e) => r == Err::<(), LexerError>(e),
                LexStep::Done => false,
            },
    {
        let start = input.offset;
        let ghost s = input.chars@;
        let mut close = start + 1;
        while close < input.chars.len() && input.chars[close] != '"'
            invariant
                input.chars@ == s,
                start + 1 <= close <= s.len(),
                forall|i: int| start + 1 <= i < close ==> is_string_part(#[trigger] s[i]),
            decreases s.len() - close,
        {
            close += 1;
        }
        proof {
            lemma_scan_while_unique(s, start as int + 1, close as int, |c: char| is_string_part(c));
        }
        if close >= input.chars.len() {
            return Err(
                LexerError {
                    kind: LexerErrorKind::UnterminatedString,
                    span: Span { from: start, to: input.chars.len() },
                },
            );
        }
        let text = text_of(&input.chars, start + 1, close);
        input.offset = close + 1;
        eat_spaces(input);
        Self::push_token(
            tokens,
            SpannedToken {
                span: Span { from: start, to: close + 1 },
                token: Token::Literal(TokenLiteral::String(text)),
            },
        );
        Ok(())
    }
}

} // verus!
