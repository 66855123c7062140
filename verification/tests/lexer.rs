use ruspy::lexer::source::{LexerError, LexerErrorKind, SourceLexer, SourceLexerExt};
use ruspy::lexer::span::{IntoSpan, Span};
use ruspy::lexer::token::{SpannedToken, Token, TokenKeyword, TokenLiteral, TokenPunctuation};
use ruspy::lexer::utils::eat_spaces;
use ruspy::lexer::Lexer;

fn ident(name: &str) -> Token {
    Token::Ident(String::from(name))
}

fn punct(p: TokenPunctuation) -> Token {
    Token::Punctuation(p)
}

fn kw(k: TokenKeyword) -> Token {
    Token::Keyword(k)
}

fn number(n: i64) -> Token {
    Token::Literal(TokenLiteral::Number(n))
}

fn boolean(b: bool) -> Token {
    Token::Literal(TokenLiteral::Bool(b))
}

fn text(s: &str) -> Token {
    Token::Literal(TokenLiteral::String(String::from(s)))
}

fn kinds(tokens: impl IntoIterator<Item = SpannedToken>) -> Vec<Token> {
    tokens.into_iter().map(|t| t.token).collect()
}

fn lex(source: &str) -> Vec<Token> {
    kinds(Lexer::from_str(source).unwrap())
}

#[test]
fn tests_simple() {
    let res = Lexer::from_str("a = 1").unwrap();
    assert_eq!(
        kinds(res),
        &[ident("a"), punct(TokenPunctuation::Equal), number(1)]
    )
}

#[test]
fn tests_expression() {
    let res = Lexer::from_str("a + b * c - d / e").unwrap();
    assert_eq!(
        kinds(res),
        &[
            ident("a"),
            punct(TokenPunctuation::Plus),
            ident("b"),
            punct(TokenPunctuation::Star),
            ident("c"),
            punct(TokenPunctuation::Minus),
            ident("d"),
            punct(TokenPunctuation::Slash),
            ident("e")
        ]
    )
}

#[test]
fn keywords() {
    let res = Lexer::from_str("global").unwrap();
    assert_eq!(kinds(res), &[kw(TokenKeyword::Global)])
}

#[test]
fn tests_conditional() {
    let res = Lexer::from_str(
        "if True:\
       \n a = 1",
    )
    .unwrap();
    assert_eq!(
        kinds(res),
        &[
            kw(TokenKeyword::If),
            boolean(true),
            punct(TokenPunctuation::Colon),
            punct(TokenPunctuation::Newline),
            punct(TokenPunctuation::Indentation),
            ident("a"),
            punct(TokenPunctuation::Equal),
            number(1)
        ]
    )
}

#[test]
fn empty_source_has_no_tokens() {
    assert_eq!(lex(""), Vec::<Token>::new());
}

#[test]
fn reserved_words_and_identifiers() {
    assert_eq!(
        lex("if elif else global True False nil iff _x a1 If"),
        vec![
            kw(TokenKeyword::If),
            kw(TokenKeyword::Elif),
            kw(TokenKeyword::Else),
            kw(TokenKeyword::Global),
            boolean(true),
            boolean(false),
            Token::Literal(TokenLiteral::Nil),
            ident("iff"),
            ident("_x"),
            ident("a1"),
            ident("If"),
        ]
    );
}

#[test]
fn longest_punctuation_wins() {
    assert_eq!(
        lex("!= ! == = : , - + / *"),
        vec![
            punct(TokenPunctuation::BangEqual),
            punct(TokenPunctuation::Bang),
            punct(TokenPunctuation::EqualEqual),
            punct(TokenPunctuation::Equal),
            punct(TokenPunctuation::Colon),
            punct(TokenPunctuation::Comma),
            punct(TokenPunctuation::Minus),
            punct(TokenPunctuation::Plus),
            punct(TokenPunctuation::Slash),
            punct(TokenPunctuation::Star),
        ]
    );
    assert_eq!(
        lex("a!=b"),
        vec![ident("a"), punct(TokenPunctuation::BangEqual), ident("b")]
    );
    assert_eq!(
        lex("==="),
        vec![
            punct(TokenPunctuation::EqualEqual),
            punct(TokenPunctuation::Equal)
        ]
    );
}

#[test]
fn two_spaces_are_one_indentation() {
    assert_eq!(
        lex("a\n  b\n    c"),
        vec![
            ident("a"),
            punct(TokenPunctuation::Newline),
            punct(TokenPunctuation::Indentation),
            ident("b"),
            punct(TokenPunctuation::Newline),
            punct(TokenPunctuation::Indentation),
            punct(TokenPunctuation::Indentation),
            ident("c"),
        ]
    );
}

#[test]
fn blanks_after_tokens_are_dropped() {
    assert_eq!(
        lex("a   =\t 1  \nb"),
        vec![
            ident("a"),
            punct(TokenPunctuation::Equal),
            number(1),
            punct(TokenPunctuation::Newline),
            ident("b"),
        ]
    );
}

#[test]
fn spans_cover_the_token_text() {
    let tokens: Vec<SpannedToken> = Lexer::from_str("ab = \"x y\"\n  12").unwrap().into();
    let spans: Vec<Span> = tokens.iter().map(|t| t.span).collect();
    assert_eq!(
        spans,
        vec![
            Span { from: 0, to: 2 },
            Span { from: 3, to: 4 },
            Span { from: 5, to: 10 },
            Span { from: 10, to: 11 },
            Span { from: 11, to: 13 },
            Span { from: 13, to: 15 },
        ]
    );
}

#[test]
fn string_literals_are_taken_verbatim() {
    assert_eq!(lex("\"a\\n b\""), vec![text("a\\n b")]);
    assert_eq!(lex("\"\""), vec![text("")]);
    assert_eq!(lex("\"h\u{e9}\" x"), vec![text("h\u{e9}"), ident("x")]);
}

#[test]
fn numbers_are_decimal() {
    assert_eq!(lex("0 007 42"), vec![number(0), number(7), number(42)]);
    assert_eq!(lex("9223372036854775807"), vec![number(i64::MAX)]);
    assert_eq!(
        lex("-1"),
        vec![punct(TokenPunctuation::Minus), number(1)]
    );
}

#[test]
fn number_out_of_range_is_an_error() {
    assert_eq!(
        Lexer::from_str("x = 9223372036854775808 + 1").unwrap_err(),
        LexerError {
            kind: LexerErrorKind::NumberOutOfRange,
            span: Span { from: 4, to: 23 }
        }
    );
}

#[test]
fn unterminated_string_is_an_error() {
    assert_eq!(
        Lexer::from_str("a = \"abc").unwrap_err(),
        LexerError {
            kind: LexerErrorKind::UnterminatedString,
            span: Span { from: 4, to: 8 }
        }
    );
}

#[test]
fn unexpected_character_is_an_error() {
    assert_eq!(
        Lexer::from_str("a = 1 ? 2").unwrap_err(),
        LexerError {
            kind: LexerErrorKind::UnexpectedChar('?'),
            span: Span { from: 6, to: 7 }
        }
    );
    assert_eq!(
        Lexer::from_str("\n\tb").unwrap_err(),
        LexerError {
            kind: LexerErrorKind::UnexpectedChar('\t'),
            span: Span { from: 1, to: 2 }
        }
    );
    assert_eq!(
        Lexer::from_str("a\u{e9}").unwrap_err().kind,
        LexerErrorKind::UnexpectedChar('\u{e9}')
    );
}

/// The texts of the tokens of `source`, joined again: one space after each
/// token, but none after a line end or an indentation.
fn rejoin(source: &str) -> String {
    let chars: Vec<char> = source.chars().collect();
    let mut joined = String::new();
    for token in Lexer::from_str(source).unwrap() {
        joined.extend(&chars[token.span.from..token.span.to]);
        match token.token {
            Token::Punctuation(TokenPunctuation::Newline)
            | Token::Punctuation(TokenPunctuation::Indentation) => {}
            _ => joined.push(' '),
        }
    }
    joined
}

#[test]
fn joined_token_texts_lex_to_the_same_tokens() {
    let sources = [
        "a = 1",
        "a=1+2*3",
        "if  True :\n  x   = \"a  b\"\n\n  !y\nelse:\n y = 007 !=! ==",
        "global a ,b\n   c = nil\n",
        "",
        "\n\n",
        "x\t=\t1 \n y",
        "a! =b",
    ];
    for source in sources {
        let joined = rejoin(source);
        assert_eq!(lex(&joined), lex(source), "{source:?} became {joined:?}");
    }
    assert_eq!(rejoin("a=1+2"), "a = 1 + 2 ");
    assert_eq!(rejoin("if a:\n  b"), "if a : \n  b ");
}

#[test]
fn spans_convert_from_ranges() {
    assert_eq!(Span::from(2..5), Span { from: 2, to: 5 });
    assert_eq!(("x", 1..3).into_span(), ("x", Span { from: 1, to: 3 }));
    assert_eq!(Span::char(4), Span { from: 4, to: 5 });
    assert_eq!(Span::zero(), Span { from: 0, to: 0 });
}

#[test]
fn literals_convert_from_plain_values() {
    assert_eq!(TokenLiteral::from(5), TokenLiteral::Number(5));
    assert_eq!(TokenLiteral::from(true), TokenLiteral::Bool(true));
    assert_eq!(
        TokenLiteral::from(String::from("s")),
        TokenLiteral::String(String::from("s"))
    );
    assert_eq!(
        TokenLiteral::from_str("s"),
        TokenLiteral::String(String::from("s"))
    );
}

#[test]
fn spanned_tokens_compare_by_their_tokens() {
    let a = SpannedToken::new(Span { from: 0, to: 1 }, ident("a"));
    let again = SpannedToken::new(Span { from: 7, to: 8 }, ident("a"));
    let b = SpannedToken::new(Span { from: 0, to: 1 }, ident("b"));
    assert!(a == again);
    assert!(a != b);
    assert!(a == ident("a"));
    assert!(a != number(1));
    assert!(a.is_punctuation(TokenPunctuation::Plus) == false);
    assert!(kw(TokenKeyword::If).is_keyword(TokenKeyword::If));
    assert_eq!(a.clone().parts(), (Span { from: 0, to: 1 }, ident("a")));
    assert_eq!(ident("a").into_ident(), Some(String::from("a")));
    assert_eq!(number(1).into_ident(), None);
}

#[test]
fn cursor_skips_blanks() {
    let mut input = SourceLexer::new(" \t  x ");
    assert_eq!(input.peek(), Some(' '));
    assert_eq!(input.span(), Span { from: 0, to: 1 });
    eat_spaces(&mut input);
    assert_eq!(input.offset, 4);
    assert_eq!(input.peek(), Some('x'));
    eat_spaces(&mut input);
    assert_eq!(input.offset, 4);
    input.offset = 5;
    eat_spaces(&mut input);
    assert_eq!(input.offset, 6);
    assert_eq!(input.peek(), None);
    assert_eq!(input.base().len(), 6);
    assert_eq!(
        input.error(LexerErrorKind::UnterminatedString),
        LexerError {
            kind: LexerErrorKind::UnterminatedString,
            span: Span { from: 6, to: 7 }
        }
    );
}
