//! Locating a position of the source for a diagnostic: its line, its column,
//! and the text of the line.
use crate::lexer::source::SourceLexer;
use crate::lexer::span::Span;
use crate::lexer::utils::{lemma_scan_while_unique, scan_while};
use std::ops::Range;
use vstd::prelude::*;
use vstd::string::*;

verus! {

/// Characters that do not end a line.
pub open spec fn is_line_part(c: char) -> bool {
    c != '\n'
}

/// The number of line ends before `offset`: the number of the line that
/// `offset` lies in, counted from 0.
pub open spec fn line_number(s: Seq<char>, offset: int) -> nat
    decreases offset,
{
    if offset <= 0 || offset > s.len() {
        0
    } else if s[offset - 1] == '\n' {
        line_number(s, offset - 1) + 1
    } else {
        line_number(s, offset - 1)
    }
}

/// Where the line that `offset` lies in starts: after the last line end
/// before `offset`, or at the start of the text.
pub open spec fn line_start(s: Seq<char>, offset: int) -> int
    decreases offset,
{
    if offset <= 0 || offset > s.len() {
        0
    } else if s[offset - 1] == '\n' {
        offset
    } else {
        line_start(s, offset - 1)
    }
}

/// Where the line that starts at `start` ends: at its line end, or at the end
/// of the text.
pub open spec fn line_end(s: Seq<char>, start: int) -> int {
    scan_while(s, start, |c: char| is_line_part(c))
}

/// What a diagnostic shows: a message, the line it is about, and the part of
/// the line to underline.
#[derive(Debug, PartialEq, Eq)]
pub struct Diagnostic {
    /// The number of the line, counted from 0.
    pub line: usize,
    /// The text of the line, without its line end.
    pub context: String,
    pub message: String,
    /// The column where the underlined part starts.
    pub cursor_offset: usize,
    /// The number of columns to underline, at least 1.
    pub cursor_len: usize,
}

/// The number of columns to underline for `span`: its length, and 1 for a
/// span that is empty or runs backwards.
pub open spec fn cursor_len(span: Span) -> int {
    if span.to > span.from + 1 {
        span.to - span.from
    } else {
        1
    }
}

/// The line number and the column of `offset`, and the range of the line it
/// lies in, without the line end.
pub fn extract_line_info(base: &str, offset: usize) -> (r: (usize, usize, Range<usize>))
    requires
        offset <= base@.len(),
    ensures
        r.0 == line_number(base@, offset as int),
        r.2.start == line_start(base@, offset as int),
        r.1 == offset - line_start(base@, offset as int),
        r.2.end == line_end(base@, line_start(base@, offset as int)),
        r.2.start <= offset,
        r.2.start <= r.2.end <= base@.len(),
{
    let source = SourceLexer::new(base);
    let chars = &source.chars;
    let ghost s = base@;
    let mut line: usize = 0;
    let mut start_line: usize = 0;
    let mut i: usize = 0;
    while i < offset
        invariant
            chars@ == s,
            i <= offset <= s.len(),
            line == line_number(s, i as int),
            start_line == line_start(s, i as int),
            line <= i,
            start_line <= i,
        decreases offset - i,
    {
        if chars[i] == '\n' {
            line += 1;
            start_line = i + 1;
        }
        i += 1;
    }
    let mut end_line = start_line;
    while end_line < chars.len() && chars[end_line] != '\n'
        invariant
            chars@ == s,
            start_line <= end_line <= s.len(),
            forall|j: int| start_line <= j < end_line ==> is_line_part(#[trigger] s[j]),
        decreases s.len() - end_line,
    {
        end_line += 1;
    }
    proof {
        lemma_scan_while_unique(s, start_line as int, end_line as int, |c: char| is_line_part(c));
    }
    (line, offset - start_line, start_line..end_line)
}

/// The text of the line that `offset` lies in, without its line end.
pub fn ctx_line(base: &str, offset: usize) -> (r: &str)
    requires
        offset <= base@.len(),
    ensures
        r@ == base@.subrange(
            line_start(base@, offset as int),
            line_end(base@, line_start(base@, offset as int)),
        ),
{
    let range = extract_line_info(base, offset).2;
    base.substring_char(range.start, range.end)
}

/// The diagnostic `msg` about the one character at `offset`.
pub fn raise_at(base: &str, offset: usize, msg: &str) -> (r: Diagnostic)
    requires
        offset <= base@.len(),
    ensures
        r.line == line_number(base@, offset as int),
        r.context@ == base@.subrange(
            line_start(base@, offset as int),
            line_end(base@, line_start(base@, offset as int)),
        ),
        r.message@ == msg@,
        r.cursor_offset == offset - line_start(base@, offset as int),
        r.cursor_len == 1,
{
    let (line, col, range) = extract_line_info(base, offset);
    Diagnostic {
        line,
        context: base.substring_char(range.start, range.end).to_owned(),
        message: msg.to_owned(),
        cursor_offset: col,
        cursor_len: 1,
    }
}

/// The diagnostic `msg` about the part `span` of the source. It shows the
/// line in which the span starts.
pub fn raise_range(base: &str, span: Span, msg: &str) -> (r: Diagnostic)
    requires
        span.from <= base@.len(),
    ensures
        r.line == line_number(base@, span.from as int),
        r.context@ == base@.subrange(
            line_start(base@, span.from as int),
            line_end(base@, line_start(base@, span.from as int)),
        ),
        r.message@ == msg@,
        r.cursor_offset == span.from - line_start(base@, span.from as int),
        r.cursor_len == cursor_len(span),
{
    let (line, col, range) = extract_line_info(base, span.from);
    let len = if span.to > span.from {
        span.to - span.from
    } else {
        1
    };
    Diagnostic {
        line,
        context: base.substring_char(range.start, range.end).to_owned(),
        message: msg.to_owned(),
        cursor_offset: col,
        cursor_len: len,
    }
}

} // verus!
