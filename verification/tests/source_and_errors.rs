use papyrus_lexer::errors::highlight_range;
use papyrus_lexer::source::Source;
use papyrus_lexer::{Game, ParserSession};

fn source_of(text: &str) -> Source {
    Source { filename: "<stdin>".to_string(), content: text.as_bytes().to_vec() }
}

#[test]
fn offset_to_line_and_column() {
    let src = source_of("ab\ncd\n");
    assert_eq!((1, 0), src.lineno_from_offset(0));
    assert_eq!((1, 2), src.lineno_from_offset(2));
    assert_eq!((2, 0), src.lineno_from_offset(3));
    assert_eq!((2, 1), src.lineno_from_offset(4));
    // The offset just past a final newline falls on a last, empty line.
    assert_eq!((3, 0), src.lineno_from_offset(6));
}

#[test]
fn crlf_is_line_content() {
    let src = source_of("a\r\nb");
    assert_eq!((1, 1), src.lineno_from_offset(1));
    assert_eq!((2, 0), src.lineno_from_offset(3));
}

#[test]
fn lines_in_range_keep_terminators() {
    let src = source_of("ab\ncd\nef");
    assert_eq!(vec!["ab\n".to_string(), "cd\n".to_string()], src.lines_from_linenos(1, 2));
    assert_eq!(vec!["ef".to_string()], src.lines_from_linenos(3, 3));
    assert_eq!(3, src.lines_from_linenos(1, 3).len());
}

#[test]
fn highlight_range_single_line() {
    let src = source_of("abcdef");
    assert_eq!((2, 5), highlight_range(&src, 2, 5));
}

#[test]
fn highlight_range_multi_line() {
    // lo sits at column 1 of "ab\n" (3 bytes), hi at column 1 of "cde":
    // end = hi column + (first line length - lo column).
    let src = source_of("ab\ncde");
    assert_eq!((1, 3), highlight_range(&src, 1, 4));
}

#[test]
fn highlight_range_multi_line_with_crlf() {
    // First line "a\r\n" is 3 bytes long; the \r counts as line content, so
    // it is part of the accumulated first-line remainder.
    let src = source_of("a\r\nbb\ncc");
    // lo = 0 (line 1, column 0), hi = 7 (line 3, column 1):
    // end = 1 + (3 - 0) + 3 = 7.
    assert_eq!((0, 7), highlight_range(&src, 0, 7));
}

#[test]
fn emit_reports_fatal_and_warning() {
    let sess = ParserSession::from_string("some text", Game::TESV);
    assert!(sess.new_error().warning("just a warning").span(0, 4).emit().is_ok());
    assert!(sess.new_error().fatal("a fatal error").span(0, 4).emit().is_err());
    assert!(sess.new_error().error("an error, not fatal").span(0, 4).label_help("hint").emit().is_ok());
}

#[test]
fn emit_aborts_on_bad_span_whatever_the_severity() {
    let sess = ParserSession::from_string("short", Game::TESV);
    // lo > hi: a scanner bug, aborts even as a warning.
    assert!(sess.new_error().warning("w").span(4, 2).emit().is_err());
    // hi beyond the content: same.
    assert!(sess.new_error().warning("w").span(0, 99).emit().is_err());
}
