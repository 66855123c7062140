//! Laws of the lexer: tokens hold no blanks of their own, and the texts of
//! the tokens, joined again, read as the same tokens.
use super::source::LexerError;
use super::token::{
    token_kinds, LiteralModel, SpannedTokenModel, TokenModel, TokenPunctuation,
};
use super::utils::{
    is_dec_digit, is_ident_part, is_ident_start, is_space, is_string_part, lemma_scan_while,
    lemma_scan_while_unique, scan_while,
};
use super::{
    keeps_blanks, lemma_lex_step_advances, lex_from, lex_step, punctuation_at, tokenize, LexStep,
};
use vstd::prelude::*;

verus! {

/// The part of the text that a token was read from.
pub open spec fn token_text(s: Seq<char>, token: SpannedTokenModel) -> Seq<char> {
    s.subrange(token.span.from as int, token.span.to as int)
}

/// What stands after a token when tokens are joined: nothing after a line
/// end or an indentation, where blanks would count, and one space after
/// every other token.
pub open spec fn separator(token: TokenModel) -> Seq<char> {
    match token {
        TokenModel::Punctuation(p) if keeps_blanks(p) => Seq::empty(),
        _ => seq![' '],
    }
}

/// The texts of `tokens` in `s`, joined with their separators.
pub open spec fn rejoin(s: Seq<char>, tokens: Seq<SpannedTokenModel>) -> Seq<char>
    decreases tokens.len(),
{
    if tokens.len() == 0 {
        Seq::empty()
    } else {
        token_text(s, tokens[0]) + separator(tokens[0].token) + rejoin(s, tokens.skip(1))
    }
}

/// The tokens of an outcome without their spans, or `None` for an error.
pub open spec fn kinds_of(outcome: Result<Seq<SpannedTokenModel>, LexerError>) -> Option<
    Seq<TokenModel>,
> {
    match outcome {
        Ok(tokens) => Some(token_kinds(tokens)),
        Err(_) => None,
    }
}

/// A run in the second of two joined texts is the run in that text alone.
proof fn lemma_scan_shift(a: Seq<char>, b: Seq<char>, p: int, class: spec_fn(char) -> bool)
    requires
        0 <= p <= b.len(),
    ensures
        scan_while(a + b, a.len() + p, class) == a.len() + scan_while(b, p, class),
    decreases b.len() - p,
{
    if p < b.len() {
        if class(b[p]) {
            lemma_scan_shift(a, b, p + 1, class);
        }
    }
}

/// What the lexer finds in the second of two joined texts is what it finds
/// in that text alone, further to the right.
proof fn lemma_step_shift(a: Seq<char>, b: Seq<char>, p: int)
    requires
        0 <= p <= b.len(),
    ensures
        match lex_step(b, p) {
            LexStep::Done => lex_step(a + b, a.len() + p) is Done,
            LexStep::Error(_) => lex_step(a + b, a.len() + p) is Error,
            LexStep::Token { token, next } => lex_step(a + b, a.len() + p) matches LexStep::Token {
                token: shifted,
                next: after,
            } && shifted.token == token.token && after == a.len() + next,
        },
{
    let r = a + b;
    let q = a.len() + p;
    if p < b.len() {
        let blank = |c: char| is_space(c);
        if is_ident_start(b[p]) {
            let class = |c: char| is_ident_part(c);
            lemma_scan_shift(a, b, p, class);
            lemma_scan_while(b, p, class);
            let end = scan_while(b, p, class);
            lemma_scan_shift(a, b, end, blank);
            assert(r.subrange(q, a.len() + end) =~= b.subrange(p, end));
        } else if is_dec_digit(b[p]) {
            let class = |c: char| is_dec_digit(c);
            lemma_scan_shift(a, b, p, class);
            lemma_scan_while(b, p, class);
            let end = scan_while(b, p, class);
            lemma_scan_shift(a, b, end, blank);
            assert(r.subrange(q, a.len() + end) =~= b.subrange(p, end));
        } else if b[p] == '"' {
            let class = |c: char| is_string_part(c);
            lemma_scan_shift(a, b, p + 1, class);
            lemma_scan_while(b, p + 1, class);
            let close = scan_while(b, p + 1, class);
            if close < b.len() {
                lemma_scan_shift(a, b, close + 1, blank);
                assert(r.subrange(q + 1, a.len() + close) =~= b.subrange(p + 1, close));
            }
        } else {
            match punctuation_at(b, p) {
                Some((mark, len)) => {
                    lemma_scan_shift(a, b, p + len, blank);
                },
                None => {},
            }
        }
    }
}

/// The tokens of the second of two joined texts are the tokens of that text
/// alone.
proof fn lemma_lex_shift(a: Seq<char>, b: Seq<char>, p: int)
    requires
        0 <= p <= b.len(),
    ensures
        kinds_of(lex_from(a + b, a.len() + p)) == kinds_of(lex_from(b, p)),
    decreases b.len() - p,
{
    lemma_step_shift(a, b, p);
    lemma_lex_step_advances(b, p);
    match lex_step(b, p) {
        LexStep::Token { token, next } => {
            let shifted = lex_step(a + b, a.len() + p)->token;
            lemma_lex_shift(a, b, next);
            match (lex_from(b, next), lex_from(a + b, a.len() + next)) {
                (Ok(rest), Ok(shifted_rest)) => {
                    assert(token_kinds(seq![shifted] + shifted_rest) =~= seq![shifted.token]
                        + token_kinds(shifted_rest));
                },
                _ => {},
            }
        },
        _ => {},
    }
}

/// The text of a token, followed by its separator and then by nothing or by
/// a character that is the first of a token read after it, reads as the same
/// token, up to the end of the separator.
proof fn lemma_piece(s: Seq<char>, pos: int, tail: Seq<char>)
    requires
        0 <= pos,
        s.len() <= usize::MAX,
        lex_step(s, pos) is Token,
        tail.len() > 0 ==> lex_step(s, pos)->next < s.len() && tail[0] == s[lex_step(s, pos)->next],
    ensures
        ({
            let token = lex_step(s, pos)->token;
            let piece = token_text(s, token) + separator(token.token);
            &&& piece.len() > 0
            &&& piece[0] == s[pos]
            &&& lex_step(piece + tail, 0) matches LexStep::Token { token: again, next }
            &&& again.token == token.token
            &&& next == piece.len()
        }),
{
    let token = lex_step(s, pos)->token;
    let text = token_text(s, token);
    let piece = text + separator(token.token);
    let r = piece + tail;
    let blank = |c: char| is_space(c);
    lemma_lex_step_advances(s, pos);
    let to = token.span.to as int;
    let n = text.len() as int;
    if is_ident_start(s[pos]) {
        let class = |c: char| is_ident_part(c);
        lemma_scan_while(s, pos, class);
        lemma_scan_while(s, to, blank);
        lemma_scan_while_unique(r, 0, n, class);
        lemma_scan_while_unique(r, n, n + 1, blank);
        assert(r.subrange(0, n) =~= text);
    } else if is_dec_digit(s[pos]) {
        let class = |c: char| is_dec_digit(c);
        lemma_scan_while(s, pos, class);
        lemma_scan_while(s, to, blank);
        lemma_scan_while_unique(r, 0, n, class);
        lemma_scan_while_unique(r, n, n + 1, blank);
        assert(r.subrange(0, n) =~= text);
    } else if s[pos] == '"' {
        let class = |c: char| is_string_part(c);
        lemma_scan_while(s, pos + 1, class);
        let close = scan_while(s, pos + 1, class);
        lemma_scan_while(s, close + 1, blank);
        lemma_scan_while_unique(r, 1, n - 1, class);
        lemma_scan_while_unique(r, n, n + 1, blank);
        assert(r.subrange(1, n - 1) =~= s.subrange(pos + 1, close));
    } else {
        let (mark, len) = punctuation_at(s, pos).unwrap();
        lemma_scan_while(s, pos + len, blank);
        if !keeps_blanks(mark) {
            lemma_scan_while_unique(r, n, n + 1, blank);
        }
    }
}

/// The round trip from a position: the texts of the tokens read from `pos`
/// on, joined again, read as the same tokens.
proof fn lemma_round_trip_from(s: Seq<char>, pos: int)
    requires
        0 <= pos <= s.len(),
        s.len() <= usize::MAX,
        lex_from(s, pos).is_ok(),
    ensures
        ({
            let tokens = lex_from(s, pos).unwrap();
            let joined = rejoin(s, tokens);
            &&& kinds_of(lex_from(joined, 0)) == Some(token_kinds(tokens))
            &&& tokens.len() == 0 ==> joined.len() == 0
            &&& tokens.len() > 0 ==> joined.len() > 0 && pos < s.len() && joined[0] == s[pos]
        }),
    decreases s.len() - pos,
{
    let tokens = lex_from(s, pos).unwrap();
    lemma_lex_step_advances(s, pos);
    match lex_step(s, pos) {
        LexStep::Token { token, next } => {
            let rest = lex_from(s, next).unwrap();
            lemma_round_trip_from(s, next);
            let tail = rejoin(s, rest);
            let piece = token_text(s, token) + separator(token.token);
            assert(tokens.skip(1) =~= rest);
            lemma_piece(s, pos, tail);
            let again = lex_step(piece + tail, 0)->token;
            lemma_lex_shift(piece, tail, 0);
            match lex_from(piece + tail, piece.len() as int) {
                Ok(others) => {
                    assert(token_kinds(seq![token] + rest) =~= seq![token.token] + token_kinds(
                        rest,
                    ));
                },
                Err(_) => {},
            }
        },
        _ => {},
    }
}

/// The round trip. Where a text has tokens, the texts of those tokens,
/// joined again with one space after each token that drops the blanks after
/// it, have tokens too, and they are the same tokens in the same order; only
/// their places differ.
pub proof fn lemma_round_trip(s: Seq<char>)
    requires
        s.len() <= usize::MAX,
        tokenize(s).is_ok(),
    ensures
        tokenize(rejoin(s, tokenize(s).unwrap())) matches Ok(again) && token_kinds(again)
            == token_kinds(tokenize(s).unwrap()),
{
    lemma_round_trip_from(s, 0);
}

/// Whether the token may hold blanks: a string literal holds what stands
/// between its quotes, and an indentation is made of spaces.
pub open spec fn may_hold_blanks(token: TokenModel) -> bool {
    token matches TokenModel::Literal(LiteralModel::String(_))
        || token == TokenModel::Punctuation(TokenPunctuation::Indentation)
}

/// Whether the text of the token in `s` is free of spaces and tabs, unless
/// the token is of a kind that may hold them.
pub open spec fn holds_no_blanks(s: Seq<char>, token: SpannedTokenModel) -> bool {
    may_hold_blanks(token.token) || forall|i: int|
        token.span.from <= i < token.span.to ==> !is_space(#[trigger] s[i])
}

/// A token that is read holds no blanks of its own, and nothing but blanks
/// is dropped after it.
pub proof fn lemma_step_holds_no_blanks(s: Seq<char>, pos: int)
    requires
        0 <= pos,
        s.len() <= usize::MAX,
    ensures
        lex_step(s, pos) matches LexStep::Token { token, next } ==> {
            &&& holds_no_blanks(s, token)
            &&& forall|i: int| token.span.to <= i < next ==> is_space(#[trigger] s[i])
        },
{
    if pos < s.len() {
        let blank = |c: char| is_space(c);
        if is_ident_start(s[pos]) {
            let class = |c: char| is_ident_part(c);
            lemma_scan_while(s, pos, class);
            lemma_scan_while(s, scan_while(s, pos, class), blank);
        } else if is_dec_digit(s[pos]) {
            let class = |c: char| is_dec_digit(c);
            lemma_scan_while(s, pos, class);
            lemma_scan_while(s, scan_while(s, pos, class), blank);
        } else if s[pos] == '"' {
            let class = |c: char| is_string_part(c);
            lemma_scan_while(s, pos + 1, class);
            let close = scan_while(s, pos + 1, class);
            if close < s.len() {
                lemma_scan_while(s, close + 1, blank);
            }
        } else {
            match punctuation_at(s, pos) {
                Some((mark, len)) => {
                    lemma_scan_while(s, pos + len, blank);
                },
                None => {},
            }
        }
    }
}

/// No token of the tokens read from `pos` on holds blanks of its own.
proof fn lemma_no_blanks_from(s: Seq<char>, pos: int)
    requires
        0 <= pos <= s.len(),
        s.len() <= usize::MAX,
        lex_from(s, pos).is_ok(),
    ensures
        forall|k: int|
            0 <= k < lex_from(s, pos).unwrap().len() ==> holds_no_blanks(
                s,
                #[trigger] lex_from(s, pos).unwrap()[k],
            ),
    decreases s.len() - pos,
{
    lemma_lex_step_advances(s, pos);
    lemma_step_holds_no_blanks(s, pos);
    match lex_step(s, pos) {
        LexStep::Token { token, next } => {
            lemma_no_blanks_from(s, next);
        },
        _ => {},
    }
}

/// Tokens hold no raw blanks: but for string literals and indentations, the
/// text of every token of a text is free of spaces and tabs.
pub proof fn lemma_tokens_hold_no_blanks(s: Seq<char>)
    requires
        s.len() <= usize::MAX,
        tokenize(s).is_ok(),
    ensures
        forall|k: int|
            0 <= k < tokenize(s).unwrap().len() ==> holds_no_blanks(
                s,
                #[trigger] tokenize(s).unwrap()[k],
            ),
{
    lemma_no_blanks_from(s, 0);
}

} // verus!
