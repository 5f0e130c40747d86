use vstd::prelude::*;
use vstd::string::{StrSliceExecFns, StringExecFns, StringSliceAdditionalSpecFns};

pub mod errors;
pub mod keywords;
pub mod lexer;
pub mod source;

use crate::source::Source;

verus! {

// Byte values the scanner dispatches on, named for readability: Verus has no
// byte literals.
pub const B_TAB: u8 = 9;
pub const B_NL: u8 = 10;
pub const B_CR: u8 = 13;
pub const B_SPACE: u8 = 32;

/// Which dialect of the scripting language is being lexed. The dialect
/// decides which extra bytes may continue an identifier and which keyword
/// table identifier classification consults.
#[derive(PartialEq, Eq, Structural, Clone, Copy, Debug)]
pub enum Game {
    TESV,
    FO4,
}

/// True for the bytes that form a whitespace run: space and horizontal tab.
pub fn is_whitespace(byte: u8) -> (r: bool)
    ensures
        r == spec_is_whitespace(byte),
{
    byte == B_SPACE || byte == B_TAB
}

pub open spec fn spec_is_whitespace(byte: u8) -> bool {
    byte == B_SPACE || byte == B_TAB
}

/// True for the bytes that can begin a newline token: carriage return and
/// line feed.
pub fn is_newline_start(byte: u8) -> (r: bool)
    ensures
        r == spec_is_newline_start(byte),
{
    byte == B_CR || byte == B_NL
}

pub open spec fn spec_is_newline_start(byte: u8) -> bool {
    byte == B_CR || byte == B_NL
}

/// One lexing session: the source text being scanned and the dialect chosen
/// for it, both immutable for the session's whole life.
pub struct ParserSession {
    pub(crate) src: Source,
    pub(crate) game: Game,
}

impl ParserSession {
    pub closed spec fn spec_content(&self) -> Seq<u8> {
        self.src.content@
    }

    pub closed spec fn spec_filename(&self) -> Seq<char> {
        self.src.filename@
    }

    pub closed spec fn spec_game(&self) -> Game {
        self.game
    }

    /// Builds a session over an in-memory script; always succeeds. The
    /// source is reported under the name `<stdin>` in diagnostics.
    pub fn from_string(script: &str, game: Game) -> (r: Self)
        ensures
            r.spec_content() == script.spec_bytes(),
            r.spec_filename() == "<stdin>"@,
            r.spec_game() == game,
    {
        Self::from_source_text("<stdin>", script, game)
    }

    /// Builds a session over a script read from elsewhere, reported under
    /// the given filename in diagnostics.
    pub fn from_source_text(filename: &str, script: &str, game: Game) -> (r: Self)
        ensures
            r.spec_content() == script.spec_bytes(),
            r.spec_filename() == filename@,
            r.spec_game() == game,
    {
        let src = Source { filename: String::from_str(filename), content: script.as_bytes_vec() };
        ParserSession { src, game }
    }

    /// A copy of this session's source text.
    pub(crate) fn clone_source(&self) -> (r: Source)
        ensures
            r.filename@ == self.spec_filename(),
            r.content@ == self.spec_content(),
    {
        self.src.duplicate()
    }
}

} // verus!
