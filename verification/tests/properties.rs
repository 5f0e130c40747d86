use papyrus_lexer::lexer::{Lexer, LexError, LitKind, TokenKind, tokenize};
use papyrus_lexer::keywords::KwKind;
use papyrus_lexer::{Game, ParserSession};

#[test]
fn unterminated_string_is_fatal() {
    let sess = ParserSession::from_string("\"no closing quote", Game::TESV);
    let mut lexer = Lexer::from_sess(&sess);
    assert_eq!(Err(LexError::UnterminatedString), lexer.next_token());
}

#[test]
fn string_broken_by_newline_is_fatal() {
    let sess = ParserSession::from_string("\"abc\ndef\"", Game::TESV);
    let mut lexer = Lexer::from_sess(&sess);
    assert_eq!(Err(LexError::UnterminatedString), lexer.next_token());
}

#[test]
fn hex_literal_value() {
    let sess = ParserSession::from_string("0xFF", Game::TESV);
    let mut lexer = Lexer::from_sess(&sess);
    let tok = lexer.next_token().unwrap();
    assert_eq!(TokenKind::Literal(LitKind::Integer(255, true)), tok.kind);
    assert_eq!((0, 4), (tok.lo, tok.hi));
}

#[test]
fn bad_hex_literal_is_fatal() {
    let sess = ParserSession::from_string("0xZZ", Game::TESV);
    let mut lexer = Lexer::from_sess(&sess);
    assert_eq!(Err(LexError::BadHexLit), lexer.next_token());
}

#[test]
fn float_literal_value() {
    let sess = ParserSession::from_string("3.14", Game::TESV);
    let mut lexer = Lexer::from_sess(&sess);
    let tok = lexer.next_token().unwrap();
    match tok.kind {
        TokenKind::Literal(LitKind::Float(text)) => {
            assert_eq!("3.14", text);
            assert_eq!(3.14f32, text.parse::<f32>().unwrap());
        }
        other => panic!("expected a float literal, got {:?}", other),
    }
    assert_eq!((0, 4), (tok.lo, tok.hi));
}

#[test]
fn negative_integer_folds_sign() {
    let sess = ParserSession::from_string("-5", Game::TESV);
    let mut lexer = Lexer::from_sess(&sess);
    let tok = lexer.next_token().unwrap();
    assert_eq!(TokenKind::Literal(LitKind::Integer(-5, false)), tok.kind);
    assert_eq!((0, 2), (tok.lo, tok.hi));
}

#[test]
fn lone_amp_warns_once_and_yields_and() {
    let sess = ParserSession::from_string("&", Game::TESV);
    let mut lexer = Lexer::from_sess(&sess);
    let tok = lexer.next_token().unwrap();
    assert_eq!(TokenKind::And, tok.kind);
    assert_eq!((0, 1), (tok.lo, tok.hi));
    assert_eq!(1, lexer.warnings());
}

#[test]
fn double_amp_yields_and_without_warning() {
    let sess = ParserSession::from_string("&&", Game::TESV);
    let mut lexer = Lexer::from_sess(&sess);
    let tok = lexer.next_token().unwrap();
    assert_eq!(TokenKind::And, tok.kind);
    assert_eq!((0, 2), (tok.lo, tok.hi));
    assert_eq!(0, lexer.warnings());
}

#[test]
fn lone_pipe_warns_once_and_yields_or() {
    let sess = ParserSession::from_string("| ||", Game::TESV);
    let mut lexer = Lexer::from_sess(&sess);
    assert_eq!(TokenKind::Or, lexer.next_token().unwrap().kind);
    assert_eq!(1, lexer.warnings());
    lexer.next_token().unwrap();
    assert_eq!(TokenKind::Or, lexer.next_token().unwrap().kind);
    assert_eq!(1, lexer.warnings());
}

#[test]
fn colon_in_identifier_is_dialect_gated() {
    let sess = ParserSession::from_string("foo:bar", Game::FO4);
    let mut lexer = Lexer::from_sess(&sess);
    assert_eq!(TokenKind::Ident("foo:bar".to_string()), lexer.next_token().unwrap().kind);

    let sess = ParserSession::from_string("foo:bar", Game::TESV);
    let mut lexer = Lexer::from_sess(&sess);
    let tok = lexer.next_token().unwrap();
    assert_eq!(TokenKind::Ident("foo".to_string()), tok.kind);
    assert_eq!((0, 3), (tok.lo, tok.hi));
    assert_eq!(Err(LexError::UnknownLexeme), lexer.next_token());
}

#[test]
fn keyword_match_is_case_insensitive() {
    for text in ["ScriptName", "scriptname", "SCRIPTNAME"] {
        let sess = ParserSession::from_string(text, Game::TESV);
        let mut lexer = Lexer::from_sess(&sess);
        assert_eq!(TokenKind::Keyword(KwKind::ScriptName), lexer.next_token().unwrap().kind);
    }
}

#[test]
fn fo4_keywords_gated_by_dialect() {
    let sess = ParserSession::from_string("struct", Game::FO4);
    let mut lexer = Lexer::from_sess(&sess);
    assert_eq!(TokenKind::Keyword(KwKind::Struct), lexer.next_token().unwrap().kind);

    let sess = ParserSession::from_string("struct", Game::TESV);
    let mut lexer = Lexer::from_sess(&sess);
    assert_eq!(TokenKind::Ident("struct".to_string()), lexer.next_token().unwrap().kind);
}

#[test]
fn token_stream_round_trip() {
    let input = "scriptname Foo extends Bar\n{doc}\nint x = 0xFF ;/ c /; \"s\\n\" 3.5 && foo:ok\r\n";
    let sess = ParserSession::from_string(input, Game::FO4);
    let (toks, err) = tokenize(&sess);
    assert_eq!(None, err);
    // No gaps, no overlaps: each token ends where the next starts.
    assert_eq!(0, toks[0].lo);
    for w in toks.windows(2) {
        assert_eq!(w[0].hi, w[1].lo);
    }
    // The final token is end-of-input and ends at the total byte length.
    assert_eq!(TokenKind::Eof, toks.last().unwrap().kind);
    assert_eq!(input.len(), toks.last().unwrap().hi);
    // Concatenating the exact byte ranges reconstructs the input.
    let mut rebuilt = String::new();
    for t in &toks {
        rebuilt.push_str(&input[t.lo..t.hi]);
    }
    assert_eq!(input, rebuilt);
}

#[test]
fn tokenize_stops_at_fatal() {
    let sess = ParserSession::from_string("abc @", Game::TESV);
    let (toks, err) = tokenize(&sess);
    assert_eq!(Some(LexError::UnknownLexeme), err);
    assert_eq!(2, toks.len());
    assert_eq!(TokenKind::Ident("abc".to_string()), toks[0].kind);
    assert_eq!(TokenKind::Whitespace, toks[1].kind);
}

#[test]
fn every_error_variant_has_an_input() {
    let cases: [(&str, LexError); 8] = [
        ("{never closed", LexError::UnterminatedDoc),
        (";/ never closed", LexError::UnterminatedComment),
        ("\"never closed", LexError::UnterminatedString),
        ("\"bad \\q escape\"", LexError::InvalidEscape),
        ("0x", LexError::BadHexLit),
        ("9999999999", LexError::BadIntLit),
        ("1.2.3", LexError::BadFloatLit),
        ("@", LexError::UnknownLexeme),
    ];
    for (input, expected) in cases {
        let sess = ParserSession::from_string(input, Game::TESV);
        let mut lexer = Lexer::from_sess(&sess);
        assert_eq!(Err(expected), lexer.next_token(), "input: {:?}", input);
    }
}

#[test]
fn integer_overflow_is_fatal() {
    for input in ["2147483648", "-2147483649", "0x80000000"] {
        let sess = ParserSession::from_string(input, Game::TESV);
        let mut lexer = Lexer::from_sess(&sess);
        assert!(lexer.next_token().is_err(), "input: {:?}", input);
    }
}
