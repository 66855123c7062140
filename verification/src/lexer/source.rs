//! The lexer's cursor over the source text, and the errors it reports.
use super::span::Span;
use vstd::prelude::*;

verus! {

/// Why the lexer stopped.
#[derive(Clone, Copy, Debug, PartialEq, Eq, Structural)]
pub enum LexerErrorKind {
    /// A character that starts no token.
    UnexpectedChar(char),
    /// A string literal whose closing quote is missing.
    UnterminatedString,
    /// A number literal that does not fit in 64 signed bits.
    NumberOutOfRange,
}

/// A lexical error and the place in the source that it refers to.
#[derive(Clone, Copy, Debug, PartialEq, Eq, Structural)]
pub struct LexerError {
    pub kind: LexerErrorKind,
    pub span: Span,
}

pub type LexerResult<T> = Result<T, LexerError>;

/// The source text as a sequence of characters, with the position of the next
/// character to read.
pub struct SourceLexer {
    pub chars: Vec<char>,
    pub offset: usize,
}

impl SourceLexer {
    /// The cursor never runs past the end of the text.
    pub open spec fn wf(&self) -> bool {
        self.offset <= self.chars.len()
    }

    /// A cursor at the start of `input`.
    pub fn new(input: &str) -> (r: Self)
        ensures
            r.chars@ == input@,
            r.offset == 0,
            r.wf(),
    {
        let mut chars: Vec<char> = Vec::new();
        for c in it: input.chars()
            invariant
                it.seq() == input@,
                chars@ == it.seq().take(it.index() as int),
        {
            chars.push(c);
        }
        SourceLexer { chars, offset: 0 }
    }

    /// The next character, if any is left.
    pub fn peek(&self) -> (r: Option<char>)
        requires
            self.wf(),
        ensures
            r == if self.offset < self.chars.len() {
                Some(self.chars@[self.offset as int])
            } else {
                None
            },
    {
        if self.offset < self.chars.len() {
            Some(self.chars[self.offset])
        } else {
            None
        }
    }
}

/// What a lexer asks of its cursor to say where it stands.
pub trait SourceLexerExt {
    /// The whole text that the cursor runs over.
    fn base(&self) -> &Vec<char>;

    /// The span of the character under the cursor.
    fn span(&self) -> Span;

    /// The error of `kind` about the character under the cursor.
    fn error(&self, kind: LexerErrorKind) -> LexerError;
}

impl SourceLexerExt for SourceLexer {
    fn base(&self) -> (r: &Vec<char>)
        ensures
            r == self.chars,
    {
        &self.chars
    }

    fn span(&self) -> (r: Span)
        ensures
            r.from == self.offset,
            r.to == if self.offset < usize::MAX {
                self.offset + 1
            } else {
                self.offset as int
            },
    {
        if self.offset < usize::MAX {
            Span::char(self.offset)
        } else {
            Span { from: self.offset, to: self.offset }
        }
    }

    fn error(&self, kind: LexerErrorKind) -> (r: LexerError)
        ensures
            r.kind == kind,
            r.span.from == self.offset,
            r.span.to == if self.offset < usize::MAX {
                self.offset + 1
            } else {
                self.offset as int
            },
    {
        LexerError { kind, span: self.span() }
    }
}

} // verus!
