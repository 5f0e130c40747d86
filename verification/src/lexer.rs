//! The scanner: consumes the source byte by byte and produces one token per
//! call, dispatching on the first byte to literal, comment, identifier and
//! operator sub-scanners. Malformed input raises a diagnostic; a fatal one
//! aborts the whole scan, which every scanning step reports by returning a
//! [`LexError`] that the caller propagates outwards.
//!
//! What the scanner must produce is written down by spec functions over the
//! raw byte sequence — [`spec_token_matches`] for the token yielded at a
//! position, [`spec_fatal_reason`] for the error raised there —
//! and every scanning step is verified against them.

use vstd::prelude::*;

use crate::errors::ErrorBuilder;
use crate::keywords::{KwKind, keyword_lookup, spec_keyword};
use crate::source::Source;
use crate::{
    B_CR, B_NL, Game, ParserSession, is_newline_start, is_whitespace, spec_is_newline_start,
    spec_is_whitespace,
};

verus! {

// Byte values the scanner dispatches on, named for readability: Verus has no
// byte literals.
pub const B_BANG: u8 = 33;
pub const B_QUOTE: u8 = 34;
pub const B_PERCENT: u8 = 37;
pub const B_AMP: u8 = 38;
pub const B_LPAREN: u8 = 40;
pub const B_RPAREN: u8 = 41;
pub const B_STAR: u8 = 42;
pub const B_PLUS: u8 = 43;
pub const B_COMMA: u8 = 44;
pub const B_MINUS: u8 = 45;
pub const B_DOT: u8 = 46;
pub const B_SLASH: u8 = 47;
pub const B_ZERO: u8 = 48;
pub const B_NINE: u8 = 57;
pub const B_COLON: u8 = 58;
pub const B_SEMI: u8 = 59;
pub const B_LT: u8 = 60;
pub const B_EQ: u8 = 61;
pub const B_GT: u8 = 62;
pub const B_UPPER_A: u8 = 65;
pub const B_UPPER_F: u8 = 70;
pub const B_UPPER_Z: u8 = 90;
pub const B_LSQUARE: u8 = 91;
pub const B_BACKSLASH: u8 = 92;
pub const B_RSQUARE: u8 = 93;
pub const B_UNDERSCORE: u8 = 95;
pub const B_LOWER_A: u8 = 97;
pub const B_LOWER_F: u8 = 102;
pub const B_LOWER_N: u8 = 110;
pub const B_LOWER_T: u8 = 116;
pub const B_LOWER_X: u8 = 120;
pub const B_LOWER_Z: u8 = 122;
pub const B_LBRACE: u8 = 123;
pub const B_PIPE: u8 = 124;
pub const B_RBRACE: u8 = 125;

/// True for the bytes that can begin an identifier: ASCII letters and `_`.
pub fn is_id_start(byte: u8) -> (r: bool)
    ensures
        r == spec_is_id_start(byte),
{
    (B_LOWER_A <= byte && byte <= B_LOWER_Z) || (B_UPPER_A <= byte && byte <= B_UPPER_Z) || byte
        == B_UNDERSCORE
}

pub open spec fn spec_is_id_start(b: u8) -> bool {
    (B_LOWER_A <= b <= B_LOWER_Z) || (B_UPPER_A <= b <= B_UPPER_Z) || b == B_UNDERSCORE
}

/// True for the bytes that can continue an identifier: identifier-start
/// bytes, ASCII digits, and `:` under the FO4 dialect.
pub fn is_id_continue(byte: u8, game: &Game) -> (r: bool)
    ensures
        r == spec_is_id_continue(byte, *game),
{
    is_id_start(byte) || (B_ZERO <= byte && byte <= B_NINE) || (*game == Game::FO4 && byte
        == B_COLON)
}

pub open spec fn spec_is_id_continue(b: u8, game: Game) -> bool {
    spec_is_id_start(b) || (B_ZERO <= b <= B_NINE) || (game == Game::FO4 && b == B_COLON)
}

pub open spec fn spec_is_digit(b: u8) -> bool {
    B_ZERO <= b <= B_NINE
}

pub open spec fn spec_is_hex_digit(b: u8) -> bool {
    spec_is_digit(b) || (B_LOWER_A <= b <= B_LOWER_F) || (B_UPPER_A <= b <= B_UPPER_F)
}

/// The bytes of `s`, each read as the character of the same code point —
/// how the scanner stores the text it consumed inside a token.
pub open spec fn chars_of(s: Seq<u8>) -> Seq<char> {
    s.map_values(|b: u8| b as char)
}

/// ASCII lower-casing of one byte.
pub open spec fn spec_lower_byte(b: u8) -> u8 {
    if B_UPPER_A <= b <= B_UPPER_Z {
        (b + 32) as u8
    } else {
        b
    }
}

/// ASCII lower-casing of a byte sequence.
pub open spec fn lower_bytes(s: Seq<u8>) -> Seq<u8> {
    s.map_values(|b: u8| spec_lower_byte(b))
}

/// End of the whitespace run that starts at `i`: the first offset at or
/// after `i` holding a byte that is not space or tab.
pub open spec fn ws_end(c: Seq<u8>, i: int) -> int
    decreases c.len() - i,
{
    if i < 0 || i >= c.len() || !spec_is_whitespace(c[i]) {
        i
    } else {
        ws_end(c, i + 1)
    }
}

/// End of the identifier-continue run that starts at `i`.
pub open spec fn ident_end(c: Seq<u8>, game: Game, i: int) -> int
    decreases c.len() - i,
{
    if i < 0 || i >= c.len() || !spec_is_id_continue(c[i], game) {
        i
    } else {
        ident_end(c, game, i + 1)
    }
}

/// End of the hex-digit run that starts at `i`.
pub open spec fn hex_end(c: Seq<u8>, i: int) -> int
    decreases c.len() - i,
{
    if i < 0 || i >= c.len() || !spec_is_hex_digit(c[i]) {
        i
    } else {
        hex_end(c, i + 1)
    }
}

/// End of the run of digits and `.` bytes that starts at `i`: how far a
/// decimal numeric literal extends.
pub open spec fn num_end(c: Seq<u8>, i: int) -> int
    decreases c.len() - i,
{
    if i < 0 || i >= c.len() || !(spec_is_digit(c[i]) || c[i] == B_DOT) {
        i
    } else {
        num_end(c, i + 1)
    }
}

/// End of the line comment that starts at `i`: the first offset at or after
/// `i` holding a newline byte, or the end of the content.
pub open spec fn line_comment_end(c: Seq<u8>, i: int) -> int
    decreases c.len() - i,
{
    if i < 0 || i >= c.len() || spec_is_newline_start(c[i]) {
        i
    } else {
        line_comment_end(c, i + 1)
    }
}

/// Result of scanning a `}`- or `/;`-terminated text block from some
/// position: either the block closes, with the offset just past its
/// terminator and the text consumed, or the input runs out first.
pub ghost enum TextScan {
    Done { end: int, value: Seq<char> },
    Unterminated,
}

/// Scan of a documentation block's interior from `i`: everything up to the
/// next `}` becomes the block's text.
pub open spec fn spec_scan_doc(c: Seq<u8>, i: int, acc: Seq<char>) -> TextScan
    decreases c.len() - i,
{
    if i < 0 || i >= c.len() {
        TextScan::Unterminated
    } else if c[i] == B_RBRACE {
        TextScan::Done { end: i + 1, value: acc }
    } else {
        spec_scan_doc(c, i + 1, acc.push(c[i] as char))
    }
}

/// Scan of a block comment's interior from `i`: everything up to the next
/// `/;` sequence becomes the comment's text.
pub open spec fn spec_scan_block(c: Seq<u8>, i: int, acc: Seq<char>) -> TextScan
    decreases c.len() - i,
{
    if i < 0 || i >= c.len() {
        TextScan::Unterminated
    } else if c[i] == B_SLASH && i + 1 < c.len() && c[i + 1] == B_SEMI {
        TextScan::Done { end: i + 2, value: acc }
    } else {
        spec_scan_block(c, i + 1, acc.push(c[i] as char))
    }
}

pub open spec fn spec_is_escape_target(b: u8) -> bool {
    b == B_LOWER_N || b == B_LOWER_T || b == B_BACKSLASH || b == B_QUOTE
}

/// The character a legal two-byte escape stands for.
pub open spec fn spec_escape_char(b: u8) -> char {
    if b == B_LOWER_N {
        '\n'
    } else if b == B_LOWER_T {
        '\t'
    } else if b == B_BACKSLASH {
        '\\'
    } else {
        '"'
    }
}

/// Result of scanning a string literal's interior from some position:
/// either the string closes at a `"`, or a bare newline or the end of input
/// leaves it unterminated, or a backslash is followed by an illegal escape
/// target (the byte at `bs` is the backslash).
pub ghost enum StrScan {
    Closed { end: int, value: Seq<char> },
    AtNewline { nl: int },
    AtEof,
    BadEscape { bs: int },
}

/// Scan of a string literal's interior from `i`. Only `\n`, `\t`, `\\` and
/// `\"` are legal escapes; each contributes its escaped character to the
/// string's value.
pub open spec fn spec_scan_string(c: Seq<u8>, i: int, acc: Seq<char>) -> StrScan
    decreases c.len() - i,
{
    if i < 0 || i >= c.len() {
        StrScan::AtEof
    } else if c[i] == B_QUOTE {
        StrScan::Closed { end: i + 1, value: acc }
    } else if spec_is_newline_start(c[i]) {
        StrScan::AtNewline { nl: i }
    } else if c[i] == B_BACKSLASH {
        if i + 1 < c.len() && spec_is_escape_target(c[i + 1]) {
            spec_scan_string(c, i + 2, acc.push(spec_escape_char(c[i + 1])))
        } else {
            StrScan::BadEscape { bs: i }
        }
    } else {
        spec_scan_string(c, i + 1, acc.push(c[i] as char))
    }
}

/// Value of a sequence of hex-digit bytes, most significant first.
pub open spec fn hex_value(s: Seq<u8>) -> int
    decreases s.len(),
{
    if s.len() == 0 {
        0
    } else {
        hex_value(s.drop_last()) * 16 + hex_digit_value(s.last())
    }
}

pub open spec fn hex_digit_value(b: u8) -> int {
    if B_ZERO <= b <= B_NINE {
        b - B_ZERO
    } else if B_LOWER_A <= b <= B_LOWER_F {
        b - B_LOWER_A + 10
    } else {
        b - B_UPPER_A + 10
    }
}

/// Value of a sequence of decimal-digit bytes, most significant first.
pub open spec fn dec_value(s: Seq<u8>) -> int
    decreases s.len(),
{
    if s.len() == 0 {
        0
    } else {
        dec_value(s.drop_last()) * 10 + (s.last() - B_ZERO)
    }
}

/// How many `.` bytes a numeric literal's text holds.
pub open spec fn dot_count(s: Seq<u8>) -> int
    decreases s.len(),
{
    if s.len() == 0 {
        0
    } else {
        dot_count(s.drop_last()) + if s.last() == B_DOT {
            1int
        } else {
            0int
        }
    }
}

} // verus!

verus! {

/// The value a literal token carries: a string's unescaped text, a float
/// literal's exact source text (digits, one `.`, an optional leading `-`),
/// or a 32-bit integer together with whether it was written in hex.
#[derive(PartialEq, Debug)]
pub enum LitKind {
    Str(String),
    Float(String),
    Integer(i32, bool),
}

/// The kind of one token. Newline records whether it was a two-byte CRLF
/// sequence; documentation blocks, comments, literals and identifiers carry
/// their text.
#[derive(PartialEq, Debug)]
pub enum TokenKind {
    Eof,
    Whitespace,
    Newline(bool),
    Doc(String),
    Comment(String),
    Literal(LitKind),
    Ident(String),
    Keyword(KwKind),
    LParen,
    RParen,
    LSquare,
    RSquare,
    Dot,
    Comma,
    Minus,
    MinusEq,
    Plus,
    PlusEq,
    Equal,
    Not,
    Multiply,
    MultiplyEq,
    Divide,
    DivideEq,
    Modulo,
    ModuleEq,
    CmpEQ,
    CmpNE,
    CmpLT,
    CmpLE,
    CmpGT,
    CmpGE,
    And,
    Or,
}

/// One token: its kind and the half-open byte-offset span `[lo, hi)` of the
/// source it was scanned from. `lo <= hi` always; a construction violating
/// that is a programming error and is ruled out.
#[derive(PartialEq, Debug)]
pub struct Token {
    pub kind: TokenKind,
    pub lo: usize,
    pub hi: usize,
}

impl Token {
    /// The span is well-formed: it never ends before it starts.
    pub open spec fn wf(&self) -> bool {
        self.lo <= self.hi
    }

    pub fn new(kind: TokenKind, lo: usize, hi: usize) -> (r: Self)
        requires
            lo <= hi,
        ensures
            r == (Token { kind, lo, hi }),
            r.wf(),
    {
        Token { kind, lo, hi }
    }
}

/// Why a scan aborted: every lexical defect other than the lone-`&` and
/// lone-`|` warnings is fatal, and each carries one of these reasons.
#[derive(PartialEq, Eq, Structural, Clone, Copy, Debug)]
pub enum LexError {
    UnterminatedDoc,
    UnterminatedComment,
    UnterminatedString,
    InvalidEscape,
    BadHexLit,
    BadIntLit,
    BadFloatLit,
    UnknownLexeme,
}

/// Result of scanning a numeric literal: an integer with its value and hex
/// flag, a float with its source text, or a malformed literal with the
/// reason. `end` is the offset just past the literal's text either way.
pub ghost enum NumScan {
    Int { end: int, value: int, hex: bool },
    FloatLit { end: int, text: Seq<char> },
    Bad { end: int, err: LexError },
}

/// Scan of the numeric literal that starts at `pos` (a digit, or a `-`
/// followed by a digit). A leading `0x` selects hex: the hex digits that
/// follow must be non-empty and fit a 32-bit signed integer. Otherwise the
/// literal is the run of digits and `.` bytes from `pos`: with no `.` it is
/// an integer and must fit 32 signed bits (the sign folded in); with exactly
/// one `.` it is a float literal; with more it is malformed.
pub open spec fn spec_scan_number(c: Seq<u8>, pos: int) -> NumScan {
    if c[pos] == B_MINUS {
        let nend = num_end(c, pos + 1);
        let digits = c.subrange(pos + 1, nend);
        if dot_count(digits) == 0 {
            if dec_value(digits) <= 2147483648 {
                NumScan::Int { end: nend, value: -dec_value(digits), hex: false }
            } else {
                NumScan::Bad { end: nend, err: LexError::BadIntLit }
            }
        } else if dot_count(digits) == 1 {
            NumScan::FloatLit { end: nend, text: seq!['-'] + chars_of(digits) }
        } else {
            NumScan::Bad { end: nend, err: LexError::BadFloatLit }
        }
    } else if c[pos] == B_ZERO && pos + 1 < c.len() && c[pos + 1] == B_LOWER_X {
        let hend = hex_end(c, pos + 2);
        let digits = c.subrange(pos + 2, hend);
        if digits.len() > 0 && hex_value(digits) <= 2147483647 {
            NumScan::Int { end: hend, value: hex_value(digits), hex: true }
        } else {
            NumScan::Bad { end: hend, err: LexError::BadHexLit }
        }
    } else {
        let nend = num_end(c, pos);
        let digits = c.subrange(pos, nend);
        if dot_count(digits) == 0 {
            if dec_value(digits) <= 2147483647 {
                NumScan::Int { end: nend, value: dec_value(digits), hex: false }
            } else {
                NumScan::Bad { end: nend, err: LexError::BadIntLit }
            }
        } else if dot_count(digits) == 1 {
            NumScan::FloatLit { end: nend, text: chars_of(digits) }
        } else {
            NumScan::Bad { end: nend, err: LexError::BadFloatLit }
        }
    }
}

/// The fixed single-byte punctuation tokens.
pub open spec fn punct_token(b: u8) -> Option<TokenKind> {
    if b == B_LPAREN {
        Some(TokenKind::LParen)
    } else if b == B_RPAREN {
        Some(TokenKind::RParen)
    } else if b == B_LSQUARE {
        Some(TokenKind::LSquare)
    } else if b == B_RSQUARE {
        Some(TokenKind::RSquare)
    } else if b == B_DOT {
        Some(TokenKind::Dot)
    } else if b == B_COMMA {
        Some(TokenKind::Comma)
    } else {
        None
    }
}

/// The operators that pair with a following `=`: the compound kind taken
/// when the `=` is there, and the bare kind otherwise. `-` is not here: it
/// is dispatched separately, since a digit after it starts a number.
pub open spec fn op_eq_pair(b: u8) -> Option<(TokenKind, TokenKind)> {
    if b == B_PLUS {
        Some((TokenKind::PlusEq, TokenKind::Plus))
    } else if b == B_EQ {
        Some((TokenKind::CmpEQ, TokenKind::Equal))
    } else if b == B_BANG {
        Some((TokenKind::CmpNE, TokenKind::Not))
    } else if b == B_STAR {
        Some((TokenKind::MultiplyEq, TokenKind::Multiply))
    } else if b == B_SLASH {
        Some((TokenKind::DivideEq, TokenKind::Divide))
    } else if b == B_PERCENT {
        Some((TokenKind::ModuleEq, TokenKind::Modulo))
    } else if b == B_LT {
        Some((TokenKind::CmpLE, TokenKind::CmpLT))
    } else if b == B_GT {
        Some((TokenKind::CmpGE, TokenKind::CmpGT))
    } else {
        None
    }
}

/// What the token produced at `pos` must look like: its kind, the text or
/// value it carries, and where it ends. False whenever scanning at `pos`
/// raises a fatal diagnostic instead (see [`spec_fatal_reason`]).
#[verifier::opaque]
pub open spec fn spec_token_matches(c: Seq<u8>, game: Game, pos: int, t: Token) -> bool {
    let len = c.len() as int;
    t.lo == pos && if pos >= len {
        t.kind == TokenKind::Eof && t.hi == pos
    } else {
        let b = c[pos];
        if spec_is_whitespace(b) {
            t.kind == TokenKind::Whitespace && t.hi == ws_end(c, pos + 1)
        } else if spec_is_newline_start(b) {
            if b == B_CR && pos + 1 < len && c[pos + 1] == B_NL {
                t.kind == TokenKind::Newline(true) && t.hi == pos + 2
            } else {
                t.kind == TokenKind::Newline(false) && t.hi == pos + 1
            }
        } else if b == B_LBRACE {
            match spec_scan_doc(c, pos + 1, Seq::empty()) {
                TextScan::Done { end, value } => t.hi == end && (t.kind matches TokenKind::Doc(s)
                    && s@ == value),
                TextScan::Unterminated => false,
            }
        } else if b == B_SEMI {
            if pos + 1 < len && c[pos + 1] == B_SLASH {
                match spec_scan_block(c, pos + 2, Seq::empty()) {
                    TextScan::Done { end, value } => t.hi == end && (t.kind
                        matches TokenKind::Comment(s) && s@ == value),
                    TextScan::Unterminated => false,
                }
            } else {
                t.hi == line_comment_end(c, pos + 1) && (t.kind matches TokenKind::Comment(s) && s@
                    == chars_of(c.subrange(pos + 1, line_comment_end(c, pos + 1))))
            }
        } else if b == B_QUOTE {
            match spec_scan_string(c, pos + 1, Seq::empty()) {
                StrScan::Closed { end, value } => t.hi == end && (t.kind
                    matches TokenKind::Literal(LitKind::Str(s)) && s@ == value),
                _ => false,
            }
        } else if spec_is_digit(b) || (b == B_MINUS && pos + 1 < len && spec_is_digit(
            c[pos + 1],
        )) {
            match spec_scan_number(c, pos) {
                NumScan::Int { end, value, hex } => t.hi == end && (t.kind
                    matches TokenKind::Literal(LitKind::Integer(v, h)) && v == value && h == hex),
                NumScan::FloatLit { end, text } => t.hi == end && (t.kind
                    matches TokenKind::Literal(LitKind::Float(s)) && s@ == text),
                NumScan::Bad { .. } => false,
            }
        } else if b == B_MINUS {
            if pos + 1 < len && c[pos + 1] == B_EQ {
                t.kind == TokenKind::MinusEq && t.hi == pos + 2
            } else {
                t.kind == TokenKind::Minus && t.hi == pos + 1
            }
        } else if spec_is_id_start(b) {
            let e = ident_end(c, game, pos + 1);
            t.hi == e && match spec_keyword(chars_of(lower_bytes(c.subrange(pos, e))), game) {
                Some(k) => t.kind == TokenKind::Keyword(k),
                None => t.kind matches TokenKind::Ident(s) && s@ == chars_of(c.subrange(pos, e)),
            }
        } else if punct_token(b) is Some {
            Some(t.kind) == punct_token(b) && t.hi == pos + 1
        } else if op_eq_pair(b) is Some {
            match op_eq_pair(b) {
                Some(pair) => if pos + 1 < len && c[pos + 1] == B_EQ {
                    t.kind == pair.0 && t.hi == pos + 2
                } else {
                    t.kind == pair.1 && t.hi == pos + 1
                },
                None => false,
            }
        } else if b == B_AMP {
            t.kind == TokenKind::And && t.hi == (if pos + 1 < len && c[pos + 1] == B_AMP {
                pos + 2
            } else {
                pos + 1
            })
        } else if b == B_PIPE {
            t.kind == TokenKind::Or && t.hi == (if pos + 1 < len && c[pos + 1] == B_PIPE {
                pos + 2
            } else {
                pos + 1
            })
        } else {
            false
        }
    }
}

/// The fatal error, if any, that scanning at `pos` raises: exactly when no
/// token can be produced there.
#[verifier::opaque]
pub open spec fn spec_fatal_reason(c: Seq<u8>, game: Game, pos: int) -> Option<LexError> {
    let len = c.len() as int;
    if pos >= len {
        None
    } else {
        let b = c[pos];
        if spec_is_whitespace(b) || spec_is_newline_start(b) {
            None
        } else if b == B_LBRACE {
            if spec_scan_doc(c, pos + 1, Seq::empty()) is Unterminated {
                Some(LexError::UnterminatedDoc)
            } else {
                None
            }
        } else if b == B_SEMI {
            if pos + 1 < len && c[pos + 1] == B_SLASH && spec_scan_block(c, pos + 2, Seq::empty())
                is Unterminated {
                Some(LexError::UnterminatedComment)
            } else {
                None
            }
        } else if b == B_QUOTE {
            match spec_scan_string(c, pos + 1, Seq::empty()) {
                StrScan::Closed { .. } => None,
                StrScan::AtNewline { .. } => Some(LexError::UnterminatedString),
                StrScan::AtEof => Some(LexError::UnterminatedString),
                StrScan::BadEscape { .. } => Some(LexError::InvalidEscape),
            }
        } else if spec_is_digit(b) || (b == B_MINUS && pos + 1 < len && spec_is_digit(
            c[pos + 1],
        )) {
            match spec_scan_number(c, pos) {
                NumScan::Bad { err, .. } => Some(err),
                _ => None,
            }
        } else if b == B_MINUS || spec_is_id_start(b) || punct_token(b) is Some || op_eq_pair(b)
            is Some || b == B_AMP || b == B_PIPE {
            None
        } else {
            Some(LexError::UnknownLexeme)
        }
    }
}

/// Whether scanning at `pos` renders exactly one warning diagnostic: a lone
/// `&` or a lone `|`, each of which still yields its token.
pub open spec fn spec_warns(c: Seq<u8>, pos: int) -> bool {
    pos < c.len() && ((c[pos] == B_AMP && !(pos + 1 < c.len() && c[pos + 1] == B_AMP)) || (c[pos]
        == B_PIPE && !(pos + 1 < c.len() && c[pos + 1] == B_PIPE)))
}

} // verus!

verus! {

/// Relies on `String::push`: appends one character to the string.
#[verifier::external_body]
fn push_char(s: &mut String, c: char)
    ensures
        final(s)@ == old(s)@.push(c),
{
    s.push(c);
}

/// The scanner over one session's source text: it owns a copy of the text
/// and the dialect, the scanning cursor, and a count of the warning
/// diagnostics rendered so far.
pub struct Lexer {
    src: Source,
    game: Game,
    pos: usize,
    warnings: usize,
}

impl Lexer {
    pub closed spec fn spec_content(&self) -> Seq<u8> {
        self.src.content@
    }

    pub closed spec fn spec_filename(&self) -> Seq<char> {
        self.src.filename@
    }

    pub closed spec fn spec_game(&self) -> Game {
        self.game
    }

    pub closed spec fn spec_pos(&self) -> int {
        self.pos as int
    }

    pub closed spec fn spec_warnings(&self) -> int {
        self.warnings as int
    }

    /// The cursor never runs past the end of the content, and warnings are
    /// rendered at most one per consumed byte.
    pub open spec fn wf(&self) -> bool {
        self.spec_pos() <= self.spec_content().len() && self.spec_warnings() <= self.spec_pos()
    }

    /// Everything but the cursor is untouched: the source, the dialect and
    /// the warning count stay what they were.
    pub open spec fn spec_same_session(&self, other: &Lexer) -> bool {
        &&& self.spec_content() == other.spec_content()
        &&& self.spec_filename() == other.spec_filename()
        &&& self.spec_game() == other.spec_game()
        &&& self.spec_warnings() == other.spec_warnings()
    }

    /// A scanner at the start of the session's source text.
    pub fn from_sess(sess: &ParserSession) -> (r: Self)
        ensures
            r.wf(),
            r.spec_content() == sess.spec_content(),
            r.spec_filename() == sess.spec_filename(),
            r.spec_game() == sess.spec_game(),
            r.spec_pos() == 0,
            r.spec_warnings() == 0,
    {
        Lexer { src: sess.clone_source(), game: sess.game, pos: 0, warnings: 0 }
    }

    /// The current absolute byte offset of the cursor.
    pub fn cur_pos(&self) -> (r: usize)
        ensures
            r == self.spec_pos(),
    {
        self.pos
    }

    /// Whether the whole input has been consumed.
    pub fn is_eof(&self) -> (r: bool)
        ensures
            r == (self.spec_pos() == self.spec_content().len()),
    {
        self.pos == self.src.content.len()
    }

    /// How many warning diagnostics this scanner has rendered.
    pub fn warnings(&self) -> (r: usize)
        ensures
            r == self.spec_warnings(),
    {
        self.warnings
    }

    /// A diagnostic builder against this scanner's source text.
    fn diag(&self) -> (r: ErrorBuilder)
        ensures
            r.spec_content() == self.spec_content(),
            !r.spec_fatal(),
    {
        ErrorBuilder::from_source(self.src.duplicate(), true)
    }

    /// Consumes the whitespace run the cursor stands in.
    fn scan_ws(&mut self)
        requires
            old(self).wf(),
        ensures
            final(self).wf(),
            final(self).spec_same_session(old(self)),
            final(self).spec_pos() == ws_end(old(self).spec_content(), old(self).spec_pos()),
            final(self).spec_pos() >= old(self).spec_pos(),
    {
        let ghost c = self.src.content@;
        while self.pos < self.src.content.len() && is_whitespace(self.src.content[self.pos])
            invariant
                self.wf(),
                self.spec_same_session(old(self)),
                c == self.spec_content(),
                old(self).spec_pos() <= self.spec_pos(),
                ws_end(c, old(self).spec_pos()) == ws_end(c, self.spec_pos()),
            decreases c.len() - self.spec_pos(),
        {
            self.pos = self.pos + 1;
        }
    }

    /// Consumes a documentation block: the cursor stands on its `{`, and
    /// everything through the next `}` is consumed. An unterminated block is
    /// a fatal error whose span runs from the `{` to the first newline of
    /// the partial content (or just past the `{` when none exists).
    fn scan_doc(&mut self, start: usize) -> (r: Result<String, LexError>)
        requires
            old(self).wf(),
            old(self).spec_pos() == start < old(self).spec_content().len(),
            old(self).spec_content()[start as int] == B_LBRACE,
        ensures
            final(self).wf(),
            final(self).spec_same_session(old(self)),
            match spec_scan_doc(old(self).spec_content(), start + 1, Seq::empty()) {
                TextScan::Done { end, value } => r matches Ok(s) && s@ == value
                    && final(self).spec_pos() == end,
                TextScan::Unterminated => r matches Err(e) && e == LexError::UnterminatedDoc,
            },
            final(self).spec_pos() > start,
    {
        let ghost c = self.src.content@;
        let n = self.src.content.len();
        self.pos = start + 1;
        let mut value = String::new();
        let mut first_nl: Option<usize> = None;
        loop
            invariant
                self.wf(),
                self.spec_same_session(old(self)),
                start + 1 <= self.spec_pos() <= c.len(),
                c == self.spec_content(),
                c[start as int] == B_LBRACE,
                spec_scan_doc(c, start + 1, Seq::empty()) == spec_scan_doc(
                    c,
                    self.spec_pos(),
                    value@,
                ),
            decreases c.len() - self.spec_pos(),
        {
            if self.pos == self.src.content.len() {
                let hi = match first_nl {
                    Some(j) => j,
                    None => start + 1,
                };
                let _ = self.diag().fatal("unterminated documentation block").span(
                    start,
                    hi,
                ).emit();
                return Err(LexError::UnterminatedDoc);
            }
            let b = self.src.content[self.pos];
            if b == B_RBRACE {
                self.pos = self.pos + 1;
                return Ok(value);
            }
            if b == B_NL && first_nl.is_none() {
                first_nl = Some(self.pos);
            }
            push_char(&mut value, b as char);
            self.pos = self.pos + 1;
        }
    }

    /// Consumes a block comment: the cursor stands on its `;`, the next byte
    /// is the `/`, and everything through the next `/;` sequence is
    /// consumed. An unterminated comment is a fatal error spanning like an
    /// unterminated documentation block.
    fn scan_block_comment(&mut self, start: usize) -> (r: Result<String, LexError>)
        requires
            old(self).wf(),
            old(self).spec_pos() == start,
            start + 1 < old(self).spec_content().len(),
            old(self).spec_content()[start as int] == B_SEMI,
            old(self).spec_content()[start as int + 1] == B_SLASH,
        ensures
            final(self).wf(),
            final(self).spec_same_session(old(self)),
            match spec_scan_block(old(self).spec_content(), start + 2, Seq::empty()) {
                TextScan::Done { end, value } => r matches Ok(s) && s@ == value
                    && final(self).spec_pos() == end,
                TextScan::Unterminated => r matches Err(e) && e == LexError::UnterminatedComment,
            },
            final(self).spec_pos() > start,
    {
        let ghost c = self.src.content@;
        let n = self.src.content.len();
        self.pos = start + 2;
        let mut value = String::new();
        let mut first_nl: Option<usize> = None;
        loop
            invariant
                self.wf(),
                self.spec_same_session(old(self)),
                start + 2 <= self.spec_pos() <= c.len(),
                c == self.spec_content(),
                spec_scan_block(c, start + 2, Seq::empty()) == spec_scan_block(
                    c,
                    self.spec_pos(),
                    value@,
                ),
            decreases c.len() - self.spec_pos(),
        {
            if self.pos == self.src.content.len() {
                let hi = match first_nl {
                    Some(j) => j,
                    None => start + 2,
                };
                let _ = self.diag().fatal("unterminated block comment").span(start, hi).emit();
                return Err(LexError::UnterminatedComment);
            }
            let b = self.src.content[self.pos];
            if b == B_SLASH && self.pos + 1 < self.src.content.len() && self.src.content[self.pos
                + 1] == B_SEMI {
                self.pos = self.pos + 2;
                return Ok(value);
            }
            if b == B_NL && first_nl.is_none() {
                first_nl = Some(self.pos);
            }
            push_char(&mut value, b as char);
            self.pos = self.pos + 1;
        }
    }

    /// Consumes a line comment: the cursor stands on its `;`, and everything
    /// up to, not including, the next newline (or the end of input) is
    /// consumed.
    fn scan_line_comment(&mut self, start: usize) -> (r: String)
        requires
            old(self).wf(),
            old(self).spec_pos() == start < old(self).spec_content().len(),
        ensures
            final(self).wf(),
            final(self).spec_same_session(old(self)),
            final(self).spec_pos() == line_comment_end(old(self).spec_content(), start + 1),
            r@ == chars_of(
                old(self).spec_content().subrange(start + 1, line_comment_end(
                    old(self).spec_content(),
                    start + 1,
                )),
            ),
            final(self).spec_pos() > start,
    {
        let ghost c = self.src.content@;
        let n = self.src.content.len();
        self.pos = start + 1;
        let mut value = String::new();
        while self.pos < self.src.content.len() && !is_newline_start(
            self.src.content[self.pos],
        )
            invariant
                self.wf(),
                self.spec_same_session(old(self)),
                start + 1 <= self.spec_pos() <= c.len(),
                c == self.spec_content(),
                line_comment_end(c, start + 1) == line_comment_end(c, self.spec_pos()),
                value@ == chars_of(c.subrange(start + 1, self.spec_pos())),
            decreases c.len() - self.spec_pos(),
        {
            let b = self.src.content[self.pos];
            push_char(&mut value, b as char);
            self.pos = self.pos + 1;
            proof {
                assert(c.subrange(start + 1, self.spec_pos()) =~= c.subrange(
                    start + 1,
                    self.spec_pos() - 1,
                ).push(c[self.spec_pos() - 1]));
            }
        }
        value
    }
}

} // verus!

verus! {

fn is_digit(b: u8) -> (r: bool)
    ensures
        r == spec_is_digit(b),
{
    B_ZERO <= b && b <= B_NINE
}

fn is_hex_digit(b: u8) -> (r: bool)
    ensures
        r == spec_is_hex_digit(b),
{
    is_digit(b) || (B_LOWER_A <= b && b <= B_LOWER_F) || (B_UPPER_A <= b && b <= B_UPPER_F)
}

fn hex_digit_val(b: u8) -> (r: u8)
    requires
        spec_is_hex_digit(b),
    ensures
        r as int == hex_digit_value(b),
        r <= 15,
{
    if b <= B_NINE {
        b - B_ZERO
    } else if b >= B_LOWER_A {
        b - B_LOWER_A + 10
    } else {
        b - B_UPPER_A + 10
    }
}

fn is_escape_target(b: u8) -> (r: bool)
    ensures
        r == spec_is_escape_target(b),
{
    b == B_LOWER_N || b == B_LOWER_T || b == B_BACKSLASH || b == B_QUOTE
}

fn escape_char(b: u8) -> (r: char)
    requires
        spec_is_escape_target(b),
    ensures
        r == spec_escape_char(b),
{
    if b == B_LOWER_N {
        '\n'
    } else if b == B_LOWER_T {
        '\t'
    } else if b == B_BACKSLASH {
        '\\'
    } else {
        '"'
    }
}

fn lower_byte(b: u8) -> (r: u8)
    ensures
        r == spec_lower_byte(b),
{
    if B_UPPER_A <= b && b <= B_UPPER_Z {
        b + 32
    } else {
        b
    }
}

impl Lexer {
    /// Consumes a string literal: the cursor stands on its opening `"`.
    /// A bare newline or the end of input before the closing `"` is a fatal
    /// unterminated-string error; a backslash followed by anything but `n`,
    /// `t`, `\` or `"` is a fatal invalid-escape error spanning the two-byte
    /// escape sequence.
    fn scan_string(&mut self, start: usize) -> (r: Result<String, LexError>)
        requires
            old(self).wf(),
            old(self).spec_pos() == start < old(self).spec_content().len(),
            old(self).spec_content()[start as int] == B_QUOTE,
        ensures
            final(self).wf(),
            final(self).spec_same_session(old(self)),
            match spec_scan_string(old(self).spec_content(), start + 1, Seq::empty()) {
                StrScan::Closed { end, value } => r matches Ok(s) && s@ == value
                    && final(self).spec_pos() == end,
                StrScan::AtNewline { .. } => r matches Err(e) && e
                    == LexError::UnterminatedString,
                StrScan::AtEof => r matches Err(e) && e == LexError::UnterminatedString,
                StrScan::BadEscape { .. } => r matches Err(e) && e == LexError::InvalidEscape,
            },
            final(self).spec_pos() > start,
    {
        let ghost c = self.src.content@;
        let n = self.src.content.len();
        self.pos = start + 1;
        let mut value = String::new();
        loop
            invariant
                self.wf(),
                self.spec_same_session(old(self)),
                c == self.spec_content(),
                n == c.len(),
                start + 1 <= self.spec_pos() <= c.len(),
                spec_scan_string(c, start + 1, Seq::empty()) == spec_scan_string(
                    c,
                    self.spec_pos(),
                    value@,
                ),
            decreases c.len() - self.spec_pos(),
        {
            if self.pos == n {
                let _ = self.diag().fatal("unterminated string").span(start, n).emit();
                return Err(LexError::UnterminatedString);
            }
            let b = self.src.content[self.pos];
            if b == B_QUOTE {
                self.pos = self.pos + 1;
                return Ok(value);
            }
            if is_newline_start(b) {
                let nl = self.pos;
                self.pos = nl + 1;
                let _ = self.diag().fatal("unterminated string").span(start, nl).emit();
                return Err(LexError::UnterminatedString);
            }
            if b == B_BACKSLASH {
                if self.pos + 1 < n && is_escape_target(self.src.content[self.pos + 1]) {
                    let esc = escape_char(self.src.content[self.pos + 1]);
                    push_char(&mut value, esc);
                    self.pos = self.pos + 2;
                } else {
                    let bs = self.pos;
                    self.pos = bs + 1;
                    let hi = if n - bs >= 2 {
                        bs + 2
                    } else {
                        n
                    };
                    let _ = self.diag().fatal("invalid escape character").span(
                        bs,
                        hi,
                    ).label_error("only '\\n','\\t', '\\\\' or '\\\"' allowed").emit();
                    return Err(LexError::InvalidEscape);
                }
            } else {
                push_char(&mut value, b as char);
                self.pos = self.pos + 1;
            }
        }
    }
}

} // verus!

verus! {

impl Lexer {
    /// Consumes a numeric literal: the cursor stands on its first digit, or
    /// — with `neg` set — on a `-` immediately followed by a digit. A
    /// leading `0x` selects hex parsing; the literal's value must fit a
    /// 32-bit signed integer, and a decimal literal may carry at most one
    /// embedded `.`, which makes it a float. Anything else is a fatal
    /// malformed-literal error.
    fn scan_number(&mut self, start: usize, neg: bool) -> (r: Result<LitKind, LexError>)
        requires
            old(self).wf(),
            old(self).spec_pos() == start < old(self).spec_content().len(),
            neg ==> old(self).spec_content()[start as int] == B_MINUS && start + 1
                < old(self).spec_content().len() && spec_is_digit(
                old(self).spec_content()[start as int + 1],
            ),
            !neg ==> spec_is_digit(old(self).spec_content()[start as int]),
        ensures
            final(self).wf(),
            final(self).spec_same_session(old(self)),
            match spec_scan_number(old(self).spec_content(), start as int) {
                NumScan::Int { end, value, hex } => r matches Ok(k) && (k
                    matches LitKind::Integer(v, h) && v as int == value && h == hex)
                    && final(self).spec_pos() == end,
                NumScan::FloatLit { end, text } => r matches Ok(k) && (k matches LitKind::Float(s)
                    && s@ == text) && final(self).spec_pos() == end,
                NumScan::Bad { end, err } => r matches Err(e) && e == err
                    && final(self).spec_pos() == end,
            },
            final(self).spec_pos() > start,
    {
        let ghost c = self.src.content@;
        let n = self.src.content.len();
        if !neg && self.src.content[start] == B_ZERO && start + 1 < n && self.src.content[start
            + 1] == B_LOWER_X {
            // Hex literal: value of the (non-empty) hex-digit run after the
            // `0x` marker, which must fit a 32-bit signed integer.
            self.pos = start + 2;
            let mut acc: u64 = 0;
            let mut big = false;
            loop
                invariant
                    self.wf(),
                    self.spec_same_session(old(self)),
                    c == self.spec_content(),
                    n == c.len(),
                    start + 2 <= self.spec_pos() <= n,
                    hex_end(c, start + 2) == hex_end(c, self.spec_pos()),
                    !big ==> acc as int == hex_value(c.subrange(start + 2, self.spec_pos()))
                        && acc <= 2147483647,
                    big ==> hex_value(c.subrange(start + 2, self.spec_pos())) > 2147483647,
                ensures
                    self.spec_pos() == n || !spec_is_hex_digit(c[self.spec_pos()]),
                decreases n - self.spec_pos(),
            {
                if self.pos == n || !is_hex_digit(self.src.content[self.pos]) {
                    break ;
                }
                let d = hex_digit_val(self.src.content[self.pos]);
                if !big {
                    let nv: u64 = acc * 16 + d as u64;
                    if nv > 2147483647 {
                        big = true;
                    } else {
                        acc = nv;
                    }
                }
                self.pos = self.pos + 1;
                proof {
                    let digits = c.subrange(start + 2, self.spec_pos());
                    assert(digits.drop_last() =~= c.subrange(start + 2, self.spec_pos() - 1));
                }
            }
            proof {
                assert(hex_end(c, self.spec_pos()) == self.spec_pos());
            }
            if self.pos == start + 2 || big {
                let _ = self.diag().fatal("could not parse hex literal").span(
                    start,
                    self.pos,
                ).label_error("not a valid hex literal").emit();
                return Err(LexError::BadHexLit);
            }
            return Ok(LitKind::Integer(acc as i32, true));
        }
        // Decimal literal: the run of digits and dots from the first digit.
        let dstart = if neg {
            start + 1
        } else {
            start
        };
        self.pos = dstart;
        let mut acc: u64 = 0;
        let mut big = false;
        let mut dots: usize = 0;
        let mut text = String::new();
        if neg {
            push_char(&mut text, '-');
        }
        loop
            invariant
                self.wf(),
                self.spec_same_session(old(self)),
                c == self.spec_content(),
                n == c.len(),
                dstart <= self.spec_pos() <= n,
                start <= dstart <= start + 1,
                neg ==> dstart == start + 1,
                num_end(c, dstart as int) == num_end(c, self.spec_pos()),
                dots as int == dot_count(c.subrange(dstart as int, self.spec_pos())),
                dots <= self.spec_pos() - dstart,
                text@ == (if neg {
                    seq!['-'] + chars_of(c.subrange(dstart as int, self.spec_pos()))
                } else {
                    chars_of(c.subrange(dstart as int, self.spec_pos()))
                }),
                dots == 0 ==> (!big ==> acc as int == dec_value(
                    c.subrange(dstart as int, self.spec_pos()),
                ) && acc <= 0xFFFFFFFFu64),
                dots == 0 ==> (big ==> dec_value(c.subrange(dstart as int, self.spec_pos()))
                    > 0xFFFFFFFFu64),
            ensures
                self.spec_pos() == n || !(spec_is_digit(c[self.spec_pos()]) || c[self.spec_pos()]
                    == B_DOT),
            decreases n - self.spec_pos(),
        {
            if self.pos == n {
                break ;
            }
            let b = self.src.content[self.pos];
            if is_digit(b) {
                if dots == 0 && !big {
                    let nv: u64 = acc * 10 + (b - B_ZERO) as u64;
                    if nv > 0xFFFFFFFFu64 {
                        big = true;
                    } else {
                        acc = nv;
                    }
                }
            } else if b == B_DOT {
                dots = dots + 1;
            } else {
                break ;
            }
            push_char(&mut text, b as char);
            self.pos = self.pos + 1;
            proof {
                let digits = c.subrange(dstart as int, self.spec_pos());
                assert(digits.drop_last() =~= c.subrange(dstart as int, self.spec_pos() - 1));
                assert(chars_of(digits) =~= chars_of(digits.drop_last()).push(
                    digits.last() as char,
                ));
            }
        }
        proof {
            assert(num_end(c, self.spec_pos()) == self.spec_pos());
            assert(num_end(c, dstart as int) == num_end(c, dstart + 1));
        }
        if dots == 0 {
            let bound: u64 = if neg {
                2147483648
            } else {
                2147483647
            };
            if big || acc > bound {
                let _ = self.diag().fatal("could not parse integer literal").span(
                    start,
                    self.pos,
                ).label_help("try using a smaller integer").emit();
                return Err(LexError::BadIntLit);
            }
            let v: i32 = if neg {
                if acc == 2147483648 {
                    i32::MIN
                } else {
                    -(acc as i32)
                }
            } else {
                acc as i32
            };
            return Ok(LitKind::Integer(v, false));
        }
        if dots == 1 {
            return Ok(LitKind::Float(text));
        }
        let _ = self.diag().fatal("could not parse float literal").span(start, self.pos).emit();
        Err(LexError::BadFloatLit)
    }
}

} // verus!

verus! {

impl Lexer {
    /// Consumes an identifier: the cursor stands on its first byte, and the
    /// run of identifier-continue bytes after it is consumed. The text,
    /// lower-cased, is checked against the dialect's keyword table: a match
    /// yields the keyword, anything else an identifier preserving the
    /// original case.
    fn scan_ident(&mut self, start: usize) -> (r: TokenKind)
        requires
            old(self).wf(),
            old(self).spec_pos() == start < old(self).spec_content().len(),
            spec_is_id_start(old(self).spec_content()[start as int]),
        ensures
            final(self).wf(),
            final(self).spec_same_session(old(self)),
            final(self).spec_pos() == ident_end(
                old(self).spec_content(),
                old(self).spec_game(),
                start + 1,
            ),
            ({
                let c = old(self).spec_content();
                let e = ident_end(c, old(self).spec_game(), start + 1);
                match spec_keyword(
                    chars_of(lower_bytes(c.subrange(start as int, e))),
                    old(self).spec_game(),
                ) {
                    Some(k) => r == TokenKind::Keyword(k),
                    None => r matches TokenKind::Ident(s) && s@ == chars_of(
                        c.subrange(start as int, e),
                    ),
                }
            }),
            final(self).spec_pos() > start,
    {
        let ghost c = self.src.content@;
        let ghost g = self.game;
        let n = self.src.content.len();
        let b0 = self.src.content[start];
        let mut raw = String::new();
        let mut lower = String::new();
        push_char(&mut raw, b0 as char);
        push_char(&mut lower, lower_byte(b0) as char);
        self.pos = start + 1;
        proof {
            let s = c.subrange(start as int, start + 1);
            assert(s =~= Seq::empty().push(c[start as int]));
            assert(chars_of(s) =~= Seq::empty().push(c[start as int] as char));
            assert(lower_bytes(s) =~= Seq::empty().push(spec_lower_byte(c[start as int])));
            assert(chars_of(lower_bytes(s)) =~= Seq::empty().push(
                spec_lower_byte(c[start as int]) as char,
            ));
        }
        while self.pos < self.src.content.len() && is_id_continue(
            self.src.content[self.pos],
            &self.game,
        )
            invariant
                self.wf(),
                self.spec_same_session(old(self)),
                c == self.spec_content(),
                g == self.spec_game(),
                n == c.len(),
                start + 1 <= self.spec_pos() <= n,
                ident_end(c, g, start + 1) == ident_end(c, g, self.spec_pos()),
                raw@ == chars_of(c.subrange(start as int, self.spec_pos())),
                lower@ == chars_of(lower_bytes(c.subrange(start as int, self.spec_pos()))),
            decreases n - self.spec_pos(),
        {
            let b = self.src.content[self.pos];
            push_char(&mut raw, b as char);
            push_char(&mut lower, lower_byte(b) as char);
            self.pos = self.pos + 1;
            proof {
                let s = c.subrange(start as int, self.spec_pos());
                assert(s.drop_last() =~= c.subrange(start as int, self.spec_pos() - 1));
                assert(chars_of(s) =~= chars_of(s.drop_last()).push(s.last() as char));
                assert(lower_bytes(s) =~= lower_bytes(s.drop_last()).push(
                    spec_lower_byte(s.last()),
                ));
                assert(chars_of(lower_bytes(s)) =~= chars_of(lower_bytes(s.drop_last())).push(
                    spec_lower_byte(s.last()) as char,
                ));
            }
        }
        match keyword_lookup(&lower, &self.game) {
            Some(k) => TokenKind::Keyword(k),
            None => TokenKind::Ident(raw),
        }
    }

    /// Consumes the operator byte the cursor stands on, plus a directly
    /// following `=` if there is one: the token is `yes` with the `=`, `no`
    /// without it.
    fn has_equal_next(&mut self, start: usize, yes: TokenKind, no: TokenKind) -> (t: Token)
        requires
            old(self).wf(),
            old(self).spec_pos() == start < old(self).spec_content().len(),
        ensures
            final(self).wf(),
            final(self).spec_same_session(old(self)),
            t.lo == start,
            t.hi == final(self).spec_pos(),
            ({
                let c = old(self).spec_content();
                if start + 1 < c.len() && c[start as int + 1] == B_EQ {
                    t.kind == yes && t.hi == start + 2
                } else {
                    t.kind == no && t.hi == start + 1
                }
            }),
    {
        let n = self.src.content.len();
        if n - self.pos >= 2 && self.src.content[self.pos + 1] == B_EQ {
            self.pos = self.pos + 2;
            Token::new(yes, start, self.pos)
        } else {
            self.pos = self.pos + 1;
            Token::new(no, start, self.pos)
        }
    }
}

} // verus!

verus! {

impl Lexer {
    /// Produces the next token of the input, or the reason the scan died.
    ///
    /// The token starts where the cursor stood and ends where it stands
    /// afterwards, so consecutive tokens leave no gaps and never overlap;
    /// what it is — kind, carried text or value, end offset — is pinned by
    /// [`spec_token_matches`], and an error is returned exactly when
    /// [`spec_fatal_reason`] names one, after rendering the fatal
    /// diagnostic. At the end of input the end-of-input token is produced
    /// over and over. A lone `&` or `|` renders exactly one warning
    /// diagnostic and still yields its token; nothing else warns.
    pub fn next_token(&mut self) -> (r: Result<Token, LexError>)
        requires
            old(self).wf(),
        ensures
            final(self).wf(),
            final(self).spec_content() == old(self).spec_content(),
            final(self).spec_filename() == old(self).spec_filename(),
            final(self).spec_game() == old(self).spec_game(),
            final(self).spec_warnings() == old(self).spec_warnings() + (if spec_warns(
                old(self).spec_content(),
                old(self).spec_pos(),
            ) {
                1int
            } else {
                0int
            }),
            (r is Err) == (spec_fatal_reason(
                old(self).spec_content(),
                old(self).spec_game(),
                old(self).spec_pos(),
            ) is Some),
            r matches Ok(t) ==> spec_token_matches(
                old(self).spec_content(),
                old(self).spec_game(),
                old(self).spec_pos(),
                t,
            ) && t.lo == old(self).spec_pos() && t.hi == final(self).spec_pos() && t.wf(),
            r matches Ok(t) ==> (old(self).spec_pos() < old(self).spec_content().len() ==> t.hi
                > t.lo),
            r matches Err(e) ==> Some(e) == spec_fatal_reason(
                old(self).spec_content(),
                old(self).spec_game(),
                old(self).spec_pos(),
            ),
    {
        proof {
            reveal(spec_token_matches);
            reveal(spec_fatal_reason);
        }
        let ghost c = self.src.content@;
        let start = self.pos;
        let n = self.src.content.len();
        if start == n {
            return Ok(Token::new(TokenKind::Eof, start, start));
        }
        let b = self.src.content[start];
        if is_whitespace(b) {
            self.pos = start + 1;
            self.scan_ws();
            return Ok(Token::new(TokenKind::Whitespace, start, self.pos));
        }
        if is_newline_start(b) {
            if b == B_CR && start + 1 < n && self.src.content[start + 1] == B_NL {
                self.pos = start + 2;
                return Ok(Token::new(TokenKind::Newline(true), start, self.pos));
            }
            self.pos = start + 1;
            return Ok(Token::new(TokenKind::Newline(false), start, self.pos));
        }
        if b == B_LBRACE {
            return match self.scan_doc(start) {
                Ok(s) => Ok(Token::new(TokenKind::Doc(s), start, self.pos)),
                Err(e) => Err(e),
            };
        }
        if b == B_SEMI {
            if start + 1 < n && self.src.content[start + 1] == B_SLASH {
                return match self.scan_block_comment(start) {
                    Ok(s) => Ok(Token::new(TokenKind::Comment(s), start, self.pos)),
                    Err(e) => Err(e),
                };
            }
            let s = self.scan_line_comment(start);
            return Ok(Token::new(TokenKind::Comment(s), start, self.pos));
        }
        if b == B_QUOTE {
            return match self.scan_string(start) {
                Ok(s) => Ok(Token::new(TokenKind::Literal(LitKind::Str(s)), start, self.pos)),
                Err(e) => Err(e),
            };
        }
        if is_digit(b) {
            return match self.scan_number(start, false) {
                Ok(k) => Ok(Token::new(TokenKind::Literal(k), start, self.pos)),
                Err(e) => Err(e),
            };
        }
        if b == B_MINUS && start + 1 < n && is_digit(self.src.content[start + 1]) {
            return match self.scan_number(start, true) {
                Ok(k) => Ok(Token::new(TokenKind::Literal(k), start, self.pos)),
                Err(e) => Err(e),
            };
        }
        if b == B_MINUS {
            if start + 1 < n && self.src.content[start + 1] == B_EQ {
                self.pos = start + 2;
                return Ok(Token::new(TokenKind::MinusEq, start, self.pos));
            }
            self.pos = start + 1;
            return Ok(Token::new(TokenKind::Minus, start, self.pos));
        }
        if is_id_start(b) {
            let k = self.scan_ident(start);
            return Ok(Token::new(k, start, self.pos));
        }
        if b == B_LPAREN {
            self.pos = start + 1;
            return Ok(Token::new(TokenKind::LParen, start, self.pos));
        }
        if b == B_RPAREN {
            self.pos = start + 1;
            return Ok(Token::new(TokenKind::RParen, start, self.pos));
        }
        if b == B_LSQUARE {
            self.pos = start + 1;
            return Ok(Token::new(TokenKind::LSquare, start, self.pos));
        }
        if b == B_RSQUARE {
            self.pos = start + 1;
            return Ok(Token::new(TokenKind::RSquare, start, self.pos));
        }
        if b == B_DOT {
            self.pos = start + 1;
            return Ok(Token::new(TokenKind::Dot, start, self.pos));
        }
        if b == B_COMMA {
            self.pos = start + 1;
            return Ok(Token::new(TokenKind::Comma, start, self.pos));
        }
        if b == B_PLUS {
            return Ok(self.has_equal_next(start, TokenKind::PlusEq, TokenKind::Plus));
        }
        if b == B_EQ {
            return Ok(self.has_equal_next(start, TokenKind::CmpEQ, TokenKind::Equal));
        }
        if b == B_BANG {
            return Ok(self.has_equal_next(start, TokenKind::CmpNE, TokenKind::Not));
        }
        if b == B_STAR {
            return Ok(self.has_equal_next(start, TokenKind::MultiplyEq, TokenKind::Multiply));
        }
        if b == B_SLASH {
            return Ok(self.has_equal_next(start, TokenKind::DivideEq, TokenKind::Divide));
        }
        if b == B_PERCENT {
            return Ok(self.has_equal_next(start, TokenKind::ModuleEq, TokenKind::Modulo));
        }
        if b == B_LT {
            return Ok(self.has_equal_next(start, TokenKind::CmpLE, TokenKind::CmpLT));
        }
        if b == B_GT {
            return Ok(self.has_equal_next(start, TokenKind::CmpGE, TokenKind::CmpGT));
        }
        if b == B_AMP {
            if start + 1 < n && self.src.content[start + 1] == B_AMP {
                self.pos = start + 2;
                return Ok(Token::new(TokenKind::And, start, self.pos));
            }
            self.pos = start + 1;
            let _ = self.diag().warning("expected second '&' for binary AND").span(
                start,
                self.pos,
            ).label_help("try using '&&' instead").emit();
            self.warnings = self.warnings + 1;
            return Ok(Token::new(TokenKind::And, start, self.pos));
        }
        if b == B_PIPE {
            if start + 1 < n && self.src.content[start + 1] == B_PIPE {
                self.pos = start + 2;
                return Ok(Token::new(TokenKind::Or, start, self.pos));
            }
            self.pos = start + 1;
            let _ = self.diag().warning("expected second '|' for binary OR").span(
                start,
                self.pos,
            ).label_help("try using '||' instead").emit();
            self.warnings = self.warnings + 1;
            return Ok(Token::new(TokenKind::Or, start, self.pos));
        }
        self.pos = start + 1;
        let _ = self.diag().fatal("unknown lexeme").span(start, self.pos).label_help(
            "are you using unicode characters for an identifier?",
        ).emit();
        Err(LexError::UnknownLexeme)
    }
}

} // verus!

verus! {

/// A well-formed token stream for the input `c` under dialect `g`: every
/// token matches [`spec_token_matches`] at its own start offset, spans stay
/// within the input, the first token starts at offset zero, and each token
/// ends exactly where the next begins — no gaps, no overlaps.
pub open spec fn spec_token_stream(c: Seq<u8>, g: Game, toks: Seq<Token>) -> bool {
    &&& forall|i: int|
        0 <= i < toks.len() ==> spec_token_matches(c, g, (#[trigger] toks[i]).lo as int, toks[i])
    &&& forall|i: int| 0 <= i < toks.len() ==> (#[trigger] toks[i]).lo <= toks[i].hi <= c.len()
    &&& forall|i: int| 1 <= i < toks.len() ==> (#[trigger] toks[i]).lo == toks[i - 1].hi
    &&& toks.len() > 0 ==> toks[0].lo == 0
}

/// Appends one more token to a well-formed stream: it must match the spec at
/// its start offset, and start exactly where the stream so far ends.
fn push_token(toks: &mut Vec<Token>, t: Token, Ghost(c): Ghost<Seq<u8>>, Ghost(g): Ghost<Game>)
    requires
        spec_token_stream(c, g, old(toks)@),
        spec_token_matches(c, g, t.lo as int, t),
        t.lo <= t.hi <= c.len(),
        old(toks)@.len() > 0 ==> t.lo == old(toks)@.last().hi,
        old(toks)@.len() == 0 ==> t.lo == 0,
    ensures
        spec_token_stream(c, g, final(toks)@),
        final(toks)@ == old(toks)@.push(t),
{
    let ghost prev = toks@;
    toks.push(t);
    proof {
        assert forall|i: int| 0 <= i < toks@.len() implies spec_token_matches(
            c,
            g,
            (#[trigger] toks@[i]).lo as int,
            toks@[i],
        ) by {
            if i < prev.len() {
                assert(toks@[i] == prev[i]);
            } else {
                assert(toks@[i] == t);
            }
        }
        assert forall|i: int| 0 <= i < toks@.len() implies (#[trigger] toks@[i]).lo <= toks@[i].hi
            <= c.len() by {
            if i < prev.len() {
                assert(toks@[i] == prev[i]);
            } else {
                assert(toks@[i] == t);
            }
        }
        assert forall|i: int| 1 <= i < toks@.len() implies (#[trigger] toks@[i]).lo == toks@[i
            - 1].hi by {
            if i < prev.len() {
                assert(toks@[i] == prev[i]);
                assert(toks@[i - 1] == prev[i - 1]);
            } else {
                assert(toks@[i] == t);
                assert(toks@[i - 1] == prev[i - 1]);
            }
        }
        assert(toks@[0].lo == 0);
    }
}

/// Runs a scanner over the whole session: tokens are produced one at a time
/// until the end-of-input token, or until a fatal diagnostic stops the scan,
/// in which case the tokens produced so far are returned together with the
/// reason.
///
/// The returned tokens form a well-formed stream (see
/// [`spec_token_stream`]): the first starts at offset zero and each ends
/// exactly where the next begins. When the scan completes, the last token is
/// the end-of-input token and ends at the input's total byte length; when it
/// dies, the reason is exactly what [`spec_fatal_reason`] names at the
/// offset where scanning stopped.
#[verifier::rlimit(100)]
pub fn tokenize(sess: &ParserSession) -> (r: (Vec<Token>, Option<LexError>))
    ensures
        spec_token_stream(sess.spec_content(), sess.spec_game(), r.0@),
        r.1 is None ==> r.0@.len() > 0 && r.0@.last().kind == TokenKind::Eof
            && r.0@.last().hi == sess.spec_content().len(),
        r.1 matches Some(e) ==> spec_fatal_reason(
            sess.spec_content(),
            sess.spec_game(),
            if r.0@.len() > 0 {
                r.0@.last().hi as int
            } else {
                0int
            },
        ) == Some(e),
{
    let ghost c = sess.spec_content();
    let ghost g = sess.spec_game();
    let mut lexer = Lexer::from_sess(sess);
    let mut toks: Vec<Token> = Vec::new();
    loop
        invariant
            c == sess.spec_content(),
            g == sess.spec_game(),
            lexer.wf(),
            lexer.spec_content() == c,
            lexer.spec_game() == g,
            spec_token_stream(c, g, toks@),
            toks@.len() > 0 ==> toks@.last().hi == lexer.spec_pos(),
            toks@.len() == 0 ==> lexer.spec_pos() == 0,
        decreases c.len() - lexer.spec_pos(),
    {
        let ghost entry_pos = lexer.spec_pos();
        let at_end = lexer.is_eof();
        match lexer.next_token() {
            Ok(t) => {
                push_token(&mut toks, t, Ghost(c), Ghost(g));
                if at_end {
                    proof {
                        lemma_token_at_end(c, g, entry_pos, t);
                        assert(spec_token_stream(c, g, toks@));
                        assert(c == sess.spec_content());
                        assert(g == sess.spec_game());
                        assert(toks@.last().kind is Eof);
                        assert(toks@.last().hi == c.len());
                    }
                    return (toks, None);
                }
            },
            Err(e) => {
                proof {
                    let epos: int = if toks@.len() > 0 {
                        toks@.last().hi as int
                    } else {
                        0int
                    };
                    assert(epos == entry_pos);
                    assert(spec_fatal_reason(c, g, epos) == Some(e));
                }
                return (toks, Some(e));
            },
        }
    }
}

/// At or past the end of the input only the end-of-input token matches:
/// it spans nothing and ends where it starts.
proof fn lemma_token_at_end(c: Seq<u8>, g: Game, pos: int, t: Token)
    requires
        pos >= c.len(),
        spec_token_matches(c, g, pos, t),
    ensures
        t.kind is Eof,
        t.hi == pos,
{
    reveal(spec_token_matches);
}

/// The bytes of each token's span `[lo, hi)`, concatenated in order.
pub open spec fn concat_spans(c: Seq<u8>, toks: Seq<Token>) -> Seq<u8>
    decreases toks.len(),
{
    if toks.len() == 0 {
        Seq::empty()
    } else {
        concat_spans(c, toks.drop_last()) + c.subrange(
            toks.last().lo as int,
            toks.last().hi as int,
        )
    }
}

/// Adjacent spans concatenate to the single span from the first token's
/// start to the last token's end.
proof fn lemma_concat_spans_range(c: Seq<u8>, toks: Seq<Token>)
    requires
        toks.len() > 0,
        forall|i: int| 0 <= i < toks.len() ==> (#[trigger] toks[i]).lo <= toks[i].hi <= c.len(),
        forall|i: int| 1 <= i < toks.len() ==> (#[trigger] toks[i]).lo == toks[i - 1].hi,
    ensures
        concat_spans(c, toks) == c.subrange(toks[0].lo as int, toks.last().hi as int),
        toks[0].lo <= toks.last().hi,
    decreases toks.len(),
{
    if toks.len() == 1 {
        assert(concat_spans(c, toks.drop_last()) == Seq::<u8>::empty());
        assert(concat_spans(c, toks) =~= c.subrange(toks[0].lo as int, toks.last().hi as int));
    } else {
        let prefix = toks.drop_last();
        lemma_concat_spans_range(c, prefix);
        assert(toks[0] == prefix[0]);
        assert(toks.last().lo == prefix.last().hi);
        assert(c.subrange(prefix[0].lo as int, prefix.last().hi as int) + c.subrange(
            toks.last().lo as int,
            toks.last().hi as int,
        ) =~= c.subrange(toks[0].lo as int, toks.last().hi as int));
    }
}

/// Concatenating the exact byte ranges of a produced token stream
/// reconstructs the input: the tokens of a completed scan start at offset
/// zero, stand end-to-start, and finish at the input's total length, so
/// their spans cover every byte exactly once.
pub proof fn lemma_round_trip(c: Seq<u8>, toks: Seq<Token>)
    requires
        toks.len() > 0,
        toks[0].lo == 0,
        forall|i: int| 0 <= i < toks.len() ==> (#[trigger] toks[i]).lo <= toks[i].hi <= c.len(),
        forall|i: int| 1 <= i < toks.len() ==> (#[trigger] toks[i]).lo == toks[i - 1].hi,
        toks.last().hi == c.len(),
    ensures
        concat_spans(c, toks) == c,
{
    lemma_concat_spans_range(c, toks);
    assert(c.subrange(0, c.len() as int) =~= c);
}

/// Keyword recognition is case-insensitive: identifier texts that agree
/// after ASCII lower-casing classify identically — as the same keyword, or
/// both as plain identifiers.
pub proof fn lemma_keyword_case_insensitive(a: Seq<u8>, b: Seq<u8>, game: Game)
    requires
        lower_bytes(a) == lower_bytes(b),
    ensures
        spec_keyword(chars_of(lower_bytes(a)), game) == spec_keyword(
            chars_of(lower_bytes(b)),
            game,
        ),
{
}

} // verus!
