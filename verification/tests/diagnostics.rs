use ruspy::common::error::{ctx_line, extract_line_info, raise_at, raise_range, Diagnostic};
use ruspy::lexer::span::Span;

#[test]
fn line_info_of_each_position() {
    let base = "ab\ncde\n\nf";
    assert_eq!(extract_line_info(base, 0), (0, 0, 0..2));
    assert_eq!(extract_line_info(base, 2), (0, 2, 0..2));
    assert_eq!(extract_line_info(base, 3), (1, 0, 3..6));
    assert_eq!(extract_line_info(base, 5), (1, 2, 3..6));
    assert_eq!(extract_line_info(base, 7), (2, 0, 7..7));
    assert_eq!(extract_line_info(base, 8), (3, 0, 8..9));
    assert_eq!(extract_line_info(base, 9), (3, 1, 8..9));
    assert_eq!(extract_line_info("", 0), (0, 0, 0..0));
}

#[test]
fn context_line() {
    let base = "ab\ncde\n\nf";
    assert_eq!(ctx_line(base, 1), "ab");
    assert_eq!(ctx_line(base, 4), "cde");
    assert_eq!(ctx_line(base, 7), "");
    assert_eq!(ctx_line(base, 9), "f");
    assert_eq!(ctx_line("h\u{e9}llo\nx", 3), "h\u{e9}llo");
}

#[test]
fn diagnostic_at_an_offset() {
    assert_eq!(
        raise_at("a = 1\nb = ", 10, "Unexpected EOF"),
        Diagnostic {
            line: 1,
            context: String::from("b = "),
            message: String::from("Unexpected EOF"),
            cursor_offset: 4,
            cursor_len: 1,
        }
    );
}

#[test]
fn diagnostic_for_a_span() {
    assert_eq!(
        raise_range("a = 1\nb = else", Span { from: 10, to: 14 }, "Unexpected token"),
        Diagnostic {
            line: 1,
            context: String::from("b = else"),
            message: String::from("Unexpected token"),
            cursor_offset: 4,
            cursor_len: 4,
        }
    );
    assert_eq!(
        raise_range("abc", Span { from: 2, to: 2 }, "m").cursor_len,
        1
    );
    assert_eq!(
        raise_range("abc", Span { from: 2, to: 1 }, "m").cursor_len,
        1
    );
}
