use papyrus_lexer::lexer::{Lexer, LitKind, Token, TokenKind};
use papyrus_lexer::keywords::KwKind;
use papyrus_lexer::{Game, ParserSession};

#[test]
fn whitespace() {
    let sess = ParserSession::from_string(" \t", Game::TESV);
    let mut lexer = Lexer::from_sess(&sess);
    assert_eq!(Token::new(TokenKind::Whitespace, 0, 2), lexer.next_token().unwrap());
    assert_eq!(Token::new(TokenKind::Eof, 2, 2), lexer.next_token().unwrap());
}

#[test]
fn newline() {
    let sess = ParserSession::from_string("\n \r\n", Game::TESV);
    let mut lexer = Lexer::from_sess(&sess);
    assert_eq!(Token::new(TokenKind::Newline(false), 0, 1), lexer.next_token().unwrap());
    lexer.next_token().unwrap();
    assert_eq!(Token::new(TokenKind::Newline(true), 2, 4), lexer.next_token().unwrap());
}

#[test]
fn documentation() {
    let sess = ParserSession::from_string("{ example\ndoc}", Game::TESV);
    let mut lexer = Lexer::from_sess(&sess);
    assert_eq!(
        Token::new(TokenKind::Doc(" example\ndoc".to_string()), 0, 14),
        lexer.next_token().unwrap()
    );
}

#[test]
fn comment() {
    let sess = ParserSession::from_string(";/ block_comment /; ; line_comment\n ", Game::TESV);
    let mut lexer = Lexer::from_sess(&sess);
    assert_eq!(
        Token::new(TokenKind::Comment(" block_comment ".to_string()), 0, 19),
        lexer.next_token().unwrap()
    );
    lexer.next_token().unwrap();
    assert_eq!(
        Token::new(TokenKind::Comment(" line_comment".to_string()), 20, 34),
        lexer.next_token().unwrap()
    );
}

#[test]
fn ident() {
    let sess = ParserSession::from_string("scriptname identifier", Game::TESV);
    let mut lexer = Lexer::from_sess(&sess);
    assert_eq!(
        Token::new(TokenKind::Keyword(KwKind::ScriptName), 0, 10),
        lexer.next_token().unwrap()
    );
    lexer.next_token().unwrap();
    assert_eq!(
        Token::new(TokenKind::Ident("identifier".to_string()), 11, 21),
        lexer.next_token().unwrap()
    );
}

#[test]
fn string_literal_with_escapes() {
    let sess = ParserSession::from_string("\"a\\nb\\t\\\\\\\"\"", Game::TESV);
    let mut lexer = Lexer::from_sess(&sess);
    assert_eq!(
        Token::new(TokenKind::Literal(LitKind::Str("a\nb\t\\\"".to_string())), 0, 12),
        lexer.next_token().unwrap()
    );
}

#[test]
fn eof_token_repeats() {
    let sess = ParserSession::from_string("", Game::TESV);
    let mut lexer = Lexer::from_sess(&sess);
    assert_eq!(Token::new(TokenKind::Eof, 0, 0), lexer.next_token().unwrap());
    assert_eq!(Token::new(TokenKind::Eof, 0, 0), lexer.next_token().unwrap());
}

#[test]
fn operators_and_punctuation() {
    let sess = ParserSession::from_string("+ += = == ! != * *= / /= % %= < <= > >= - -= ( ) [ ] . ,", Game::TESV);
    let mut lexer = Lexer::from_sess(&sess);
    let expected = [
        TokenKind::Plus,
        TokenKind::PlusEq,
        TokenKind::Equal,
        TokenKind::CmpEQ,
        TokenKind::Not,
        TokenKind::CmpNE,
        TokenKind::Multiply,
        TokenKind::MultiplyEq,
        TokenKind::Divide,
        TokenKind::DivideEq,
        TokenKind::Modulo,
        TokenKind::ModuleEq,
        TokenKind::CmpLT,
        TokenKind::CmpLE,
        TokenKind::CmpGT,
        TokenKind::CmpGE,
        TokenKind::Minus,
        TokenKind::MinusEq,
        TokenKind::LParen,
        TokenKind::RParen,
        TokenKind::LSquare,
        TokenKind::RSquare,
        TokenKind::Dot,
        TokenKind::Comma,
    ];
    for kind in expected {
        let tok = lexer.next_token().unwrap();
        assert_eq!(kind, tok.kind);
        let ws = lexer.next_token().unwrap();
        assert!(matches!(ws.kind, TokenKind::Whitespace | TokenKind::Eof));
    }
}

#[test]
fn integer_bounds() {
    let sess = ParserSession::from_string("2147483647", Game::TESV);
    let mut lexer = Lexer::from_sess(&sess);
    assert_eq!(
        Token::new(TokenKind::Literal(LitKind::Integer(2147483647, false)), 0, 10),
        lexer.next_token().unwrap()
    );

    let sess = ParserSession::from_string("-2147483648", Game::TESV);
    let mut lexer = Lexer::from_sess(&sess);
    assert_eq!(
        Token::new(TokenKind::Literal(LitKind::Integer(i32::MIN, false)), 0, 11),
        lexer.next_token().unwrap()
    );
}
